//! Field widget builder: checkbox and radio button objects.
//!
//! Each checkbox or radio field becomes three objects: a combined
//! button-field/widget-annotation dictionary, an "on" appearance stream
//! drawing a symbol-font glyph, and an empty "off" appearance stream.
//! The annotation's appearance state selects between the two by name.

use vstd::prelude::*;
use crate::numfmt::{dec_chars, fixed_chars, push_dec, push_fixed};
use crate::ops::{
    esc_chars, op_begin_text, op_end_text, op_set_font, op_show_text, push_begin_text,
    push_end_text, push_escaped, push_set_font, push_show_text,
};
use crate::layout::{coord_ok_i64, pos_ok};
use vstd::string::StrSliceExecFns;

verus! {

/// The drawing program of an "on" appearance: one symbol-font glyph at
/// 14 pt (a check mark for checkboxes, a filled circle for radios).
pub open spec fn appearance_content(glyph: Seq<char>) -> Seq<char> {
    op_begin_text() + op_set_font("F2"@, 14000) + op_show_text(glyph) + op_end_text()
}

/// The "on" appearance stream object: a form XObject over the field
/// rectangle, with the symbol font as its one resource.
pub open spec fn on_appearance_obj(w: int, h: int, glyph: Seq<char>) -> Seq<char> {
    let content = appearance_content(glyph);
    "<< /Type /XObject /Subtype /Form /BBox [0 0 "@ + fixed_chars(w) + " "@ + fixed_chars(h)
        + "] /Resources << /Font << /F2 2 0 R >> >> /Length "@ + dec_chars(
        vstd::utf8::encode_utf8(content).len(),
    ) + " >>\nstream\n"@ + content + "\nendstream"@
}

/// The "off" appearance stream object: an empty form XObject over the
/// field rectangle.
pub open spec fn off_appearance_obj(w: int, h: int) -> Seq<char> {
    "<< /Type /XObject /Subtype /Form /BBox [0 0 "@ + fixed_chars(w) + " "@ + fixed_chars(h)
        + "] /Length 0 >>\nstream\n\nendstream"@
}

/// The combined button-field and widget-annotation dictionary. `radio`
/// adds the radio and no-toggle-to-off field flags (bits 15 and 16);
/// `on_state` selects the `Yes` or `Off` appearance state; the normal
/// appearance dictionary binds both streams by state name.
pub open spec fn widget_dict(
    field_id: Seq<char>,
    radio: bool,
    x: int,
    y: int,
    w: int,
    h: int,
    on_state: bool,
    on_id: nat,
    off_id: nat,
) -> Seq<char> {
    "<< /Type /Annot /Subtype /Widget /FT /Btn /T ("@ + esc_chars(field_id) + ")"@ + (if radio {
        " /Ff 49152"@
    } else {
        Seq::empty()
    }) + " /Rect ["@ + fixed_chars(x) + " "@ + fixed_chars(y) + " "@ + fixed_chars(x + w) + " "@
        + fixed_chars(y + h) + "] /F 4 /AS /"@ + (if on_state {
        "Yes"@
    } else {
        "Off"@
    }) + " /AP << /N << /Yes "@ + dec_chars(on_id) + " 0 R /Off "@ + dec_chars(off_id)
        + " 0 R >> >> >>"@
}

/// Builds the "on" appearance stream object text.
pub fn build_on_appearance(w: i64, h: i64, glyph: &str) -> (r: String)
    requires
        coord_ok_i64(w),
        coord_ok_i64(h),
    ensures
        r@ == on_appearance_obj(w as int, h as int, glyph@),
{
    let mut content = String::new();
    push_begin_text(&mut content);
    push_set_font(&mut content, "F2", 14000);
    push_show_text(&mut content, glyph);
    push_end_text(&mut content);
    proof {
        assert(content@ =~= appearance_content(glyph@));
    }
    let content_bytes = content.as_str().as_bytes_vec();
    let mut r = String::new();
    r.append("<< /Type /XObject /Subtype /Form /BBox [0 0 ");
    push_fixed(&mut r, w);
    r.append(" ");
    push_fixed(&mut r, h);
    r.append("] /Resources << /Font << /F2 2 0 R >> >> /Length ");
    push_dec(&mut r, content_bytes.len() as u64);
    r.append(" >>\nstream\n");
    r.append(content.as_str());
    r.append("\nendstream");
    proof {
        assert(r@ =~= on_appearance_obj(w as int, h as int, glyph@));
    }
    r
}

/// Builds the "off" appearance stream object text.
pub fn build_off_appearance(w: i64, h: i64) -> (r: String)
    requires
        coord_ok_i64(w),
        coord_ok_i64(h),
    ensures
        r@ == off_appearance_obj(w as int, h as int),
{
    let mut r = String::new();
    r.append("<< /Type /XObject /Subtype /Form /BBox [0 0 ");
    push_fixed(&mut r, w);
    r.append(" ");
    push_fixed(&mut r, h);
    r.append("] /Length 0 >>\nstream\n\nendstream");
    proof {
        assert(r@ =~= off_appearance_obj(w as int, h as int));
    }
    r
}

/// Builds the combined field/annotation dictionary text.
pub fn build_widget_dict(
    field_id: &str,
    radio: bool,
    x: i64,
    y: i64,
    w: i64,
    h: i64,
    on_state: bool,
    on_id: usize,
    off_id: usize,
) -> (r: String)
    requires
        coord_ok_i64(x),
        pos_ok(y as int),
        coord_ok_i64(w),
        coord_ok_i64(h),
    ensures
        r@ == widget_dict(
            field_id@,
            radio,
            x as int,
            y as int,
            w as int,
            h as int,
            on_state,
            on_id as nat,
            off_id as nat,
        ),
{
    let mut r = String::new();
    r.append("<< /Type /Annot /Subtype /Widget /FT /Btn /T (");
    push_escaped(&mut r, field_id);
    r.append(")");
    if radio {
        r.append(" /Ff 49152");
    }
    r.append(" /Rect [");
    push_fixed(&mut r, x);
    r.append(" ");
    push_fixed(&mut r, y);
    r.append(" ");
    push_fixed(&mut r, x + w);
    r.append(" ");
    push_fixed(&mut r, y + h);
    r.append("] /F 4 /AS /");
    if on_state {
        r.append("Yes");
    } else {
        r.append("Off");
    }
    r.append(" /AP << /N << /Yes ");
    push_dec(&mut r, on_id as u64);
    r.append(" 0 R /Off ");
    push_dec(&mut r, off_id as u64);
    r.append(" 0 R >> >> >>");
    proof {
        assert(r@ =~= widget_dict(
            field_id@,
            radio,
            x as int,
            y as int,
            w as int,
            h as int,
            on_state,
            on_id as nat,
            off_id as nat,
        ));
    }
    r
}

} // verus!
