//! Page selection parsing.
//!
//! A selection is a comma-separated list of pages and inclusive ranges,
//! such as `1,3,5` or `1-3,5`. Whitespace around entries is ignored and
//! empty entries are skipped; the result is sorted with duplicates
//! removed. Parsing stops at the first malformed entry with a message
//! naming it.

use vstd::prelude::*;

verus! {

/// ASCII whitespace, as trimmed around selection entries.
pub open spec fn is_ws(c: char) -> bool {
    c == ' ' || c == '\t' || c == '\n' || c == '\r'
}

/// The first position in `[i, k)` holding `c`, or `k`.
pub open spec fn first_at(s: Seq<char>, i: int, k: int, c: char) -> int
    decreases k - i,
{
    if i >= k {
        k
    } else if s[i] == c {
        i
    } else {
        first_at(s, i + 1, k, c)
    }
}

/// The first position in `[i, k)` that is not whitespace, or `k`.
pub open spec fn skip_ws(s: Seq<char>, i: int, k: int) -> int
    decreases k - i,
{
    if i >= k || !is_ws(s[i]) {
        i
    } else {
        skip_ws(s, i + 1, k)
    }
}

/// The position after the last non-whitespace character in `[a, j)`,
/// or `a`.
pub open spec fn ws_end(s: Seq<char>, a: int, j: int) -> int
    decreases j - a,
{
    if j <= a || !is_ws(s[j - 1]) {
        j
    } else {
        ws_end(s, a, j - 1)
    }
}

/// Whether `c` is a decimal digit, and its value.
pub open spec fn digit_val(c: char) -> int {
    c as int - 48
}

/// Whether `c` is a decimal digit.
pub open spec fn is_digit(c: char) -> bool {
    48 <= c as int <= 57
}

/// Decimal digits accumulated from position `i` with value `acc`:
/// `None` on a non-digit or when the value would exceed `usize::MAX`
/// (the same inputs the machine parse accepts).
pub open spec fn parse_digits(s: Seq<char>, i: int, acc: nat) -> Option<nat>
    decreases s.len() - i,
{
    if i >= s.len() {
        Some(acc)
    } else if !is_digit(s[i]) {
        None
    } else if acc * 10 + digit_val(s[i]) > usize::MAX {
        None
    } else {
        parse_digits(s, i + 1, (acc * 10 + digit_val(s[i])) as nat)
    }
}

/// A parsed page number: at least one digit after an optional leading
/// plus sign.
pub open spec fn parse_num(s: Seq<char>) -> Option<nat> {
    if s.len() == 0 {
        None
    } else if s[0] == '+' {
        if s.len() == 1 {
            None
        } else {
            parse_digits(s, 1, 0)
        }
    } else {
        parse_digits(s, 0, 0)
    }
}

/// The inclusive range of pages from `a` to `b`.
pub open spec fn range_seq(a: nat, b: nat) -> Seq<nat>
    decreases b - a,
{
    if a > b {
        Seq::empty()
    } else if a == b {
        seq![a]
    } else {
        seq![a] + range_seq(a + 1, b)
    }
}

/// The error for an entry with more than one dash.
pub open spec fn range_err(part: Seq<char>) -> Seq<char> {
    "Invalid page range: "@ + part
}

/// The error for an unparsable page number.
pub open spec fn num_err(x: Seq<char>) -> Seq<char> {
    "Invalid page number: "@ + x
}

/// The error for a descending range.
pub open spec fn order_err(part: Seq<char>) -> Seq<char> {
    "Invalid range: "@ + part + " (start > end)"@
}

/// The pages contributed by the trimmed entry `[a, e)` of `s`: nothing
/// for an empty entry, an inclusive range for `lo-hi`, a single page
/// otherwise.
pub open spec fn entry_pages(s: Seq<char>, a: int, e: int, acc: Seq<nat>) -> Result<
    Seq<nat>,
    Seq<char>,
> {
    let part = s.subrange(a, e);
    if part.len() == 0 {
        Ok(acc)
    } else {
        let d = first_at(s, a, e, '-');
        if d < e {
            let d2 = first_at(s, d + 1, e, '-');
            if d2 < e {
                Err(range_err(part))
            } else {
                let lo = s.subrange(a, d);
                let hi = s.subrange(d + 1, e);
                match parse_num(lo) {
                    None => Err(num_err(lo)),
                    Some(x) => match parse_num(hi) {
                        None => Err(num_err(hi)),
                        Some(y) => {
                            if x > y {
                                Err(order_err(part))
                            } else {
                                Ok(acc + range_seq(x, y))
                            }
                        },
                    },
                }
            }
        } else {
            match parse_num(part) {
                None => Err(num_err(part)),
                Some(x) => Ok(acc.push(x)),
            }
        }
    }
}

/// The pages accumulated from the comma-separated entries of `s`
/// starting at position `i`, in entry order, or the first error.
pub open spec fn selection_pages(s: Seq<char>, i: int, acc: Seq<nat>) -> Result<
    Seq<nat>,
    Seq<char>,
>
    decreases s.len() - i,
{
    if i < 0 || i > s.len() {
        Ok(acc)
    } else {
        let k0 = first_at(s, i, s.len() as int, ',');
        let k = if k0 < i {
            i
        } else if k0 > s.len() {
            s.len() as int
        } else {
            k0
        };
        let a = skip_ws(s, i, k);
        let e = ws_end(s, a, k);
        match entry_pages(s, a, e, acc) {
            Err(msg) => Err(msg),
            Ok(acc2) => {
                if k >= s.len() {
                    Ok(acc2)
                } else {
                    selection_pages(s, k + 1, acc2)
                }
            },
        }
    }
}

/// `lst` with `p` inserted in ascending position, unless present.
pub open spec fn insert_asc(lst: Seq<nat>, p: nat) -> Seq<nat>
    decreases lst.len(),
{
    if lst.len() == 0 {
        seq![p]
    } else if p < lst[0] {
        seq![p] + lst
    } else if p == lst[0] {
        lst
    } else {
        seq![lst[0]] + insert_asc(lst.drop_first(), p)
    }
}

/// The pages from index `j` on sorted into `acc` with duplicates
/// dropped.
pub open spec fn sort_dedup(lst: Seq<nat>, j: int, acc: Seq<nat>) -> Seq<nat>
    decreases lst.len() - j,
{
    if j < 0 || j >= lst.len() {
        acc
    } else {
        sort_dedup(lst, j + 1, insert_asc(acc, lst[j]))
    }
}

/// The parsed selection: the referenced pages in ascending order
/// without duplicates, or the first entry's error.
pub open spec fn selection_spec(s: Seq<char>) -> Result<Seq<nat>, Seq<char>> {
    match selection_pages(s, 0, Seq::empty()) {
        Ok(lst) => Ok(sort_dedup(lst, 0, Seq::empty())),
        Err(e) => Err(e),
    }
}

/// Finds the first `c` in `s[i..k)`, or `k`.
fn find_char(s: &str, i: usize, k: usize, c: char) -> (r: usize)
    requires
        i <= k <= s@.len(),
    ensures
        r == first_at(s@, i as int, k as int, c),
        i <= r <= k,
{
    let mut j = i;
    while j < k
        invariant
            i <= j <= k <= s@.len(),
            first_at(s@, i as int, k as int, c) == first_at(s@, j as int, k as int, c),
        decreases k - j,
    {
        if s.get_char(j) == c {
            return j;
        }
        j = j + 1;
    }
    j
}

/// Finds the first non-whitespace position in `s[i..k)`, or `k`.
fn find_non_ws(s: &str, i: usize, k: usize) -> (r: usize)
    requires
        i <= k <= s@.len(),
    ensures
        r == skip_ws(s@, i as int, k as int),
        i <= r <= k,
{
    let mut j = i;
    while j < k
        invariant
            i <= j <= k <= s@.len(),
            skip_ws(s@, i as int, k as int) == skip_ws(s@, j as int, k as int),
        decreases k - j,
    {
        let c = s.get_char(j);
        if !(c == ' ' || c == '\t' || c == '\n' || c == '\r') {
            return j;
        }
        j = j + 1;
    }
    j
}

/// Finds the end of the non-whitespace suffix of `s[a..j)`.
fn find_ws_end(s: &str, a: usize, j: usize) -> (r: usize)
    requires
        a <= j <= s@.len(),
    ensures
        r == ws_end(s@, a as int, j as int),
        a <= r <= j,
{
    let mut e = j;
    while e > a
        invariant
            a <= e <= j <= s@.len(),
            ws_end(s@, a as int, j as int) == ws_end(s@, a as int, e as int),
        decreases e,
    {
        let c = s.get_char(e - 1);
        if !(c == ' ' || c == '\t' || c == '\n' || c == '\r') {
            return e;
        }
        e = e - 1;
    }
    e
}

/// Parses the digits of `s[i..]` into a page number.
fn parse_digits_exec(s: &str, i: usize) -> (r: Option<usize>)
    requires
        i <= s@.len(),
    ensures
        match r {
            Some(v) => parse_digits(s@, i as int, 0) == Some(v as nat),
            None => parse_digits(s@, i as int, 0) is None,
        },
{
    let n = s.unicode_len();
    let mut acc: usize = 0;
    let mut j = i;
    while j < n
        invariant
            i <= j <= n == s@.len(),
            parse_digits(s@, i as int, 0) == parse_digits(s@, j as int, acc as nat),
        decreases n - j,
    {
        let c = s.get_char(j);
        if !(c >= '0' && c <= '9') {
            return None;
        }
        let d = (c as u32 - 48) as usize;
        if acc > (usize::MAX - d) / 10 {
            proof {
                assert(acc * 10 + d > usize::MAX) by (nonlinear_arith)
                    requires
                        acc > (usize::MAX - d) / 10,
                        0 <= d <= 9,
                        (usize::MAX - d) / 10 == ((usize::MAX - d) as int) / 10,
                ;
            }
            return None;
        }
        proof {
            assert(acc * 10 + d <= usize::MAX) by (nonlinear_arith)
                requires
                    acc <= (usize::MAX - d) / 10,
                    0 <= d <= 9,
                    (usize::MAX - d) / 10 == ((usize::MAX - d) as int) / 10,
            ;
        }
        acc = acc * 10 + d;
        j = j + 1;
    }
    Some(acc)
}

/// Parses a page number with an optional leading plus sign.
fn parse_num_exec(s: &str) -> (r: Option<usize>)
    ensures
        match r {
            Some(v) => parse_num(s@) == Some(v as nat),
            None => parse_num(s@) is None,
        },
{
    let n = s.unicode_len();
    if n == 0 {
        return None;
    }
    if s.get_char(0) == '+' {
        if n == 1 {
            return None;
        }
        parse_digits_exec(s, 1)
    } else {
        parse_digits_exec(s, 0)
    }
}

/// Inserts `p` into an ascending duplicate-free vector.
fn insert_asc_exec(v: &mut Vec<usize>, p: usize)
    ensures
        final(v)@.map_values(|x: usize| x as nat) == insert_asc(
            old(v)@.map_values(|x: usize| x as nat),
            p as nat,
        ),
{
    let ghost sv = v@.map_values(|x: usize| x as nat);
    let mut i: usize = 0;
    while i < v.len() && v[i] < p
        invariant
            i <= v@.len(),
            sv == v@.map_values(|x: usize| x as nat),
            forall|k: int| 0 <= k < i ==> sv[k] < p as nat,
        decreases v@.len() - i,
    {
        i = i + 1;
    }
    if i < v.len() && v[i] == p {
        proof {
            lemma_insert_asc_at(sv, p as nat, i as int);
        }
        return ;
    }
    v.insert(i, p);
    proof {
        lemma_insert_asc_at(sv, p as nat, i as int);
        assert(final(v)@.map_values(|x: usize| x as nat) =~= sv.insert(i as int, p as nat));
    }
}

/// Where the scan stopped determines what `insert_asc` yields.
proof fn lemma_insert_asc_at(s: Seq<nat>, p: nat, idx: int)
    requires
        0 <= idx <= s.len(),
        forall|k: int| 0 <= k < idx ==> s[k] < p,
        idx < s.len() ==> s[idx] >= p,
    ensures
        idx < s.len() && s[idx] == p ==> insert_asc(s, p) == s,
        (idx == s.len() || s[idx] > p) ==> insert_asc(s, p) == s.insert(idx, p),
    decreases s.len(),
{
    if s.len() == 0 {
        assert(insert_asc(s, p) =~= s.insert(0, p));
    } else if idx == 0 {
        if s[0] == p {
        } else {
            assert(insert_asc(s, p) =~= s.insert(0, p));
        }
    } else {
        lemma_insert_asc_at(s.drop_first(), p, idx - 1);
        if idx < s.len() && s[idx] == p {
            assert(s.drop_first()[idx - 1] == p);
            assert(insert_asc(s, p) =~= s);
        } else {
            assert(insert_asc(s, p) =~= s.insert(idx, p));
        }
    }
}

/// Parses a page selection such as `1,3,5` or `1-3,5` into the sorted,
/// duplicate-free list of selected pages, or the first entry's error.
pub fn parse_page_selection(pages_str: &str) -> (r: Result<Vec<usize>, String>)
    ensures
        match r {
            Ok(v) => selection_spec(pages_str@) == Ok::<Seq<nat>, Seq<char>>(
                v@.map_values(|x: usize| x as nat),
            ),
            Err(e) => selection_spec(pages_str@) == Err::<Seq<nat>, Seq<char>>(e@),
        },
{
    let n = pages_str.unicode_len();
    let mut collected: Vec<usize> = Vec::new();
    proof {
        assert(collected@.map_values(|x: usize| x as nat) =~= Seq::<nat>::empty());
    }
    let mut i: usize = 0;
    let mut done = false;
    while !done
        invariant
            i <= n + 1,
            n == pages_str@.len(),
            !done ==> i <= n,
            !done ==> selection_pages(pages_str@, 0, Seq::empty()) == selection_pages(
                pages_str@,
                i as int,
                collected@.map_values(|x: usize| x as nat),
            ),
            done ==> selection_pages(pages_str@, 0, Seq::empty()) == Ok::<Seq<nat>, Seq<char>>(
                collected@.map_values(|x: usize| x as nat),
            ),
        decreases n + 1 - i, (if done { 0int } else { 1int }),
    {
        let k = find_char(pages_str, i, n, ',');
        let a = find_non_ws(pages_str, i, k);
        let e = find_ws_end(pages_str, a, k);
        match push_entry(pages_str, a, e, &mut collected) {
            Err(msg) => {
                return Err(msg);
            },
            Ok(()) => {},
        }
        if k >= n {
            done = true;
        } else {
            i = k + 1;
        }
    }
    let mut sorted: Vec<usize> = Vec::new();
    let ghost lst = collected@.map_values(|x: usize| x as nat);
    proof {
        assert(sorted@.map_values(|x: usize| x as nat) =~= Seq::<nat>::empty());
    }
    let mut j: usize = 0;
    while j < collected.len()
        invariant
            j <= collected@.len(),
            lst == collected@.map_values(|x: usize| x as nat),
            sort_dedup(lst, 0, Seq::empty()) == sort_dedup(
                lst,
                j as int,
                sorted@.map_values(|x: usize| x as nat),
            ),
        decreases collected@.len() - j,
    {
        insert_asc_exec(&mut sorted, collected[j]);
        j = j + 1;
    }
    Ok(sorted)
}

/// Applies one trimmed entry `[a, e)` to the collected pages.
fn push_entry(s: &str, a: usize, e: usize, out: &mut Vec<usize>) -> (r: Result<(), String>)
    requires
        a <= e <= s@.len(),
    ensures
        match r {
            Ok(()) => entry_pages(s@, a as int, e as int, old(out)@.map_values(|x: usize| x as nat))
                == Ok::<Seq<nat>, Seq<char>>(final(out)@.map_values(|x: usize| x as nat)),
            Err(msg) => entry_pages(
                s@,
                a as int,
                e as int,
                old(out)@.map_values(|x: usize| x as nat),
            ) == Err::<Seq<nat>, Seq<char>>(msg@) && final(out)@ == old(out)@,
        },
{
    if a == e {
        proof {
            assert(s@.subrange(a as int, e as int).len() == 0);
        }
        return Ok(());
    }
    let part = s.substring_char(a, e);
    proof {
        assert(part@ =~= s@.subrange(a as int, e as int));
    }
    let d = find_char(s, a, e, '-');
    if d < e {
        let d2 = find_char(s, d + 1, e, '-');
        if d2 < e {
            let mut msg = String::from_str("Invalid page range: ");
            msg.append(part);
            proof {
                assert(msg@ =~= range_err(s@.subrange(a as int, e as int)));
            }
            return Err(msg);
        }
        let lo = s.substring_char(a, d);
        let hi = s.substring_char(d + 1, e);
        proof {
            assert(lo@ =~= s@.subrange(a as int, d as int));
            assert(hi@ =~= s@.subrange(d as int + 1, e as int));
        }
        let x = match parse_num_exec(lo) {
            Some(x) => x,
            None => {
                let mut msg = String::from_str("Invalid page number: ");
                msg.append(lo);
                proof {
                    assert(msg@ =~= num_err(s@.subrange(a as int, d as int)));
                }
                return Err(msg);
            },
        };
        let y = match parse_num_exec(hi) {
            Some(y) => y,
            None => {
                let mut msg = String::from_str("Invalid page number: ");
                msg.append(hi);
                proof {
                    assert(msg@ =~= num_err(s@.subrange(d as int + 1, e as int)));
                }
                return Err(msg);
            },
        };
        if x > y {
            let mut msg = String::from_str("Invalid range: ");
            msg.append(part);
            msg.append(" (start > end)");
            proof {
                assert(msg@ =~= order_err(s@.subrange(a as int, e as int)));
            }
            return Err(msg);
        }
        let ghost base = old(out)@.map_values(|q: usize| q as nat);
        let mut v = x;
        loop
            invariant_except_break
                x <= v <= y,
                base + range_seq(x as nat, y as nat) == out@.map_values(|q: usize| q as nat)
                    + range_seq(v as nat, y as nat),
            ensures
                base + range_seq(x as nat, y as nat) == out@.map_values(|q: usize| q as nat),
            decreases y - v,
        {
            let ghost pre = out@.map_values(|q: usize| q as nat);
            out.push(v);
            proof {
                assert(out@.map_values(|q: usize| q as nat) =~= pre.push(v as nat));
                assert(base + range_seq(x as nat, y as nat) =~= out@.map_values(
                    |q: usize| q as nat,
                ) + range_seq(v as nat + 1, y as nat));
            }
            if v == y {
                proof {
                    assert(range_seq(v as nat + 1, y as nat) =~= Seq::<nat>::empty());
                    assert(base + range_seq(x as nat, y as nat) =~= out@.map_values(
                        |q: usize| q as nat,
                    ));
                }
                break ;
            }
            v = v + 1;
        }
        proof {
            assert(final(out)@.map_values(|q: usize| q as nat) =~= base + range_seq(
                x as nat,
                y as nat,
            ));
        }
        Ok(())
    } else {
        match parse_num_exec(part) {
            Some(x) => {
                out.push(x);
                proof {
                    assert(final(out)@.map_values(|q: usize| q as nat) =~= old(out)@.map_values(
                        |q: usize| q as nat,
                    ).push(x as nat));
                }
                Ok(())
            },
            None => {
                let mut msg = String::from_str("Invalid page number: ");
                msg.append(part);
                proof {
                    assert(msg@ =~= num_err(s@.subrange(a as int, e as int)));
                }
                Err(msg)
            },
        }
    }
}

} // verus!
