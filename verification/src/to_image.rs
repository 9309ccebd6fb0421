//! Page-to-image command helpers: validating the requested output
//! format.

use vstd::prelude::*;

verus! {

/// The character code of `c` with an ASCII capital folded to its small
/// letter.
pub open spec fn lower_code(c: char) -> int {
    if 65 <= c as int <= 90 {
        c as int + 32
    } else {
        c as int
    }
}

/// Whether `s`, ASCII-case-folded, equals `t` (itself lowercase).
pub open spec fn eq_lower(s: Seq<char>, t: Seq<char>) -> bool {
    s.len() == t.len() && forall|i: int| 0 <= i < s.len() ==> lower_code(s[i]) == (#[trigger] t[i]) as int
}

/// The error for an unsupported image format.
pub open spec fn bad_format_err(format: Seq<char>) -> Seq<char> {
    "Invalid format: "@ + format + ". Use 'png' or 'jpeg'"@
}

/// Compares `s`, ASCII-case-folded, with the lowercase `t`.
fn eq_lower_exec(s: &str, t: &str) -> (r: bool)
    ensures
        r == eq_lower(s@, t@),
{
    let ns = s.unicode_len();
    let nt = t.unicode_len();
    if ns != nt {
        return false;
    }
    let mut i: usize = 0;
    while i < ns
        invariant
            i <= ns,
            ns == s@.len(),
            ns == t@.len(),
            forall|k: int| 0 <= k < i ==> lower_code(s@[k]) == (#[trigger] t@[k]) as int,
        decreases ns - i,
    {
        let code = s.get_char(i) as u32;
        let lc: u32 = if 65 <= code && code <= 90 {
            code + 32
        } else {
            code
        };
        if lc != t.get_char(i) as u32 {
            return false;
        }
        i = i + 1;
    }
    true
}

/// Validates the requested image format, case-insensitively: `png`
/// stays `png`, `jpeg` and `jpg` both mean `jpeg`, anything else is
/// rejected with a message naming it.
pub fn normalize_image_format(format: &str) -> (r: Result<String, String>)
    ensures
        eq_lower(format@, "png"@) ==> (r matches Ok(f) && f@ == "png"@),
        eq_lower(format@, "jpeg"@) || eq_lower(format@, "jpg"@) ==> (r matches Ok(f) && f@
            == "jpeg"@),
        !eq_lower(format@, "png"@) && !eq_lower(format@, "jpeg"@) && !eq_lower(format@, "jpg"@)
            ==> (r matches Err(e) && e@ == bad_format_err(format@)),
{
    proof {
        reveal_strlit("png");
        reveal_strlit("jpeg");
        reveal_strlit("jpg");
    }
    if eq_lower_exec(format, "png") {
        proof {
            if eq_lower(format@, "jpg"@) {
                assert(lower_code(format@[0]) == ("png"@[0]) as int);
                assert(lower_code(format@[0]) == ("jpg"@[0]) as int);
            }
        }
        Ok(String::from_str("png"))
    } else if eq_lower_exec(format, "jpeg") || eq_lower_exec(format, "jpg") {
        Ok(String::from_str("jpeg"))
    } else {
        let mut msg = String::from_str("Invalid format: ");
        msg.append(format);
        msg.append(". Use 'png' or 'jpeg'");
        proof {
            assert(msg@ =~= bad_format_err(format@));
        }
        Err(msg)
    }
}

} // verus!
