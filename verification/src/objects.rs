//! Document object graph and file serialization.
//!
//! An overlay document is a list of numbered objects (object `i + 1` at
//! list index `i`), serialized as a header, the objects in numeric
//! order, a cross-reference table, and a trailer. Everything except
//! embedded image samples is ASCII text.

use vstd::prelude::*;
use vstd::utf8::encode_utf8;
use crate::numfmt::{dec_chars, fixed_chars, padded_chars, push_dec, push_fixed, push_padded};
use vstd::string::StrSliceExecFns;

verus! {

/// `<id> 0 R ` — one indirect reference of an array, with its trailing
/// separator.
pub open spec fn refs_list(ids: Seq<usize>, i: int) -> Seq<char>
    decreases ids.len() - i,
{
    if i < 0 || i >= ids.len() {
        Seq::empty()
    } else {
        dec_chars(ids[i] as nat) + " 0 R "@ + refs_list(ids, i + 1)
    }
}

/// `/Im<id> <id> 0 R ` — one XObject resource entry per image.
pub open spec fn image_pairs(ids: Seq<usize>, i: int) -> Seq<char>
    decreases ids.len() - i,
{
    if i < 0 || i >= ids.len() {
        Seq::empty()
    } else {
        "/Im"@ + dec_chars(ids[i] as nat) + " "@ + dec_chars(ids[i] as nat) + " 0 R "@
            + image_pairs(ids, i + 1)
    }
}

/// A content stream object: a length dictionary and the stream text.
pub open spec fn content_stream_obj(content: Seq<char>) -> Seq<u8> {
    encode_utf8(
        "<< /Length "@ + dec_chars(encode_utf8(content).len()) + " >>\nstream\n"@ + content
            + "\nendstream"@,
    )
}

/// An image XObject: 8-bit RGB samples, registered with no filter (the
/// samples are attached uncompressed, so no decode filter is declared).
pub open spec fn image_obj(w: u32, h: u32, samples: Seq<u8>) -> Seq<u8> {
    encode_utf8(
        "<< /Type /XObject /Subtype /Image /Width "@ + dec_chars(w as nat) + " /Height "@
            + dec_chars(h as nat) + " /ColorSpace /DeviceRGB /BitsPerComponent 8 /Length "@
            + dec_chars(samples.len()) + " >>\nstream\n"@,
    ) + samples + encode_utf8("\nendstream"@)
}

/// A page object: media box, parent tree, contents, optional annotation
/// list, and resources (both standard fonts, plus one XObject entry per
/// image drawn on the page).
pub open spec fn page_obj(
    w: int,
    h: int,
    content_id: usize,
    annots: Seq<usize>,
    images: Seq<usize>,
) -> Seq<u8> {
    encode_utf8(
        "<< /Type /Page /Parent 3 0 R /MediaBox [0 0 "@ + fixed_chars(w) + " "@ + fixed_chars(h)
            + "] /Contents "@ + dec_chars(content_id as nat) + " 0 R"@ + (if annots.len() > 0 {
            " /Annots ["@ + refs_list(annots, 0) + "]"@
        } else {
            Seq::empty()
        }) + " /Resources << /Font << /F1 1 0 R /F2 2 0 R >> "@ + (if images.len() > 0 {
            "/XObject << "@ + image_pairs(images, 0) + ">> "@
        } else {
            Seq::empty()
        }) + ">> >>"@,
    )
}

/// A standard Type 1 font object.
pub open spec fn font_obj(name: Seq<char>) -> Seq<u8> {
    encode_utf8("<< /Type /Font /Subtype /Type1 /BaseFont /"@ + name + " >>"@)
}

/// The page tree node: the emitted pages in order.
pub open spec fn pages_tree_obj(kids: Seq<usize>) -> Seq<u8> {
    encode_utf8(
        "<< /Type /Pages /Kids ["@ + refs_list(kids, 0) + "] /Count "@ + dec_chars(kids.len())
            + " >>"@,
    )
}

/// The document catalog, with the interactive-form field list when any
/// widget was emitted.
pub open spec fn catalog_obj(acro: Seq<usize>) -> Seq<u8> {
    encode_utf8(
        "<< /Type /Catalog /Pages 3 0 R"@ + (if acro.len() > 0 {
            " /AcroForm << /Fields ["@ + refs_list(acro, 0) + "] >>"@
        } else {
            Seq::empty()
        }) + " >>"@,
    )
}

/// The file header.
pub open spec fn file_header() -> Seq<u8> {
    encode_utf8("%PDF-1.7\n"@)
}

/// Object `i + 1` wrapped as an indirect object.
pub open spec fn obj_wrapped(id: nat, body: Seq<u8>) -> Seq<u8> {
    encode_utf8(dec_chars(id) + " 0 obj\n"@) + body + encode_utf8("\nendobj\n"@)
}

/// The bytes of the objects from index `i` on.
pub open spec fn objs_bytes(objs: Seq<Seq<u8>>, i: int) -> Seq<u8>
    decreases objs.len() - i,
{
    if i < 0 || i >= objs.len() {
        Seq::empty()
    } else {
        obj_wrapped((i + 1) as nat, objs[i]) + objs_bytes(objs, i + 1)
    }
}

/// The byte offset of object `i + 1` in the file.
pub open spec fn offset_of(objs: Seq<Seq<u8>>, i: int) -> nat
    decreases i,
{
    if i <= 0 {
        file_header().len()
    } else {
        offset_of(objs, i - 1) + obj_wrapped(i as nat, objs[i - 1]).len()
    }
}

/// The cross-reference entries for the objects from index `i` on: each
/// exactly twenty bytes.
pub open spec fn xref_entries(objs: Seq<Seq<u8>>, i: int) -> Seq<char>
    decreases objs.len() - i,
{
    if i < 0 || i >= objs.len() {
        Seq::empty()
    } else {
        padded_chars(offset_of(objs, i), 10) + " 00000 n \n"@ + xref_entries(objs, i + 1)
    }
}

/// The cross-reference table: the free entry, then one entry per object.
pub open spec fn xref_table(objs: Seq<Seq<u8>>) -> Seq<char> {
    "xref\n0 "@ + dec_chars(objs.len() + 1) + "\n0000000000 65535 f \n"@ + xref_entries(objs, 0)
}

/// The trailer, document size, catalog reference, and start of the
/// cross-reference table.
pub open spec fn file_trailer(objs: Seq<Seq<u8>>, catalog_id: nat) -> Seq<char> {
    "trailer\n<< /Size "@ + dec_chars(objs.len() + 1) + " /Root "@ + dec_chars(catalog_id)
        + " 0 R >>\nstartxref\n"@ + dec_chars(offset_of(objs, objs.len() as int)) + "\n%%EOF"@
}

/// The serialized document.
pub open spec fn serialize_doc(objs: Seq<Seq<u8>>, catalog_id: nat) -> Seq<u8> {
    file_header() + objs_bytes(objs, 0) + encode_utf8(
        xref_table(objs) + file_trailer(objs, catalog_id),
    )
}

/// Appends all bytes of `src` to `out`.
pub fn push_bytes(out: &mut Vec<u8>, src: &Vec<u8>)
    ensures
        final(out)@ == old(out)@ + src@,
{
    let mut i: usize = 0;
    while i < src.len()
        invariant
            i <= src@.len(),
            out@ == old(out)@ + src@.take(i as int),
        decreases src@.len() - i,
    {
        out.push(src[i]);
        proof {
            assert(old(out)@ + src@.take(i as int + 1) =~= (old(out)@ + src@.take(i as int)).push(
                src@[i as int],
            ));
        }
        i = i + 1;
    }
    proof {
        assert(src@.take(src@.len() as int) =~= src@);
    }
}

/// Appends the UTF-8 bytes of `s` to `out`.
pub fn push_str_bytes(out: &mut Vec<u8>, s: &str)
    ensures
        final(out)@ == old(out)@ + encode_utf8(s@),
{
    let b = s.as_bytes_vec();
    push_bytes(out, &b);
}

/// Serializes the document: header, numbered objects, cross-reference
/// table, trailer.
pub fn serialize_document(objs: &Vec<Vec<u8>>, catalog_id: usize) -> (out: Vec<u8>)
    requires
        objs@.len() < usize::MAX,
    ensures
        out@ == serialize_doc(objs@.map_values(|v: Vec<u8>| v@), catalog_id as nat),
{
    let ghost sobjs = objs@.map_values(|v: Vec<u8>| v@);
    let ghost full = file_header() + objs_bytes(sobjs, 0);
    let mut out: Vec<u8> = Vec::new();
    push_str_bytes(&mut out, "%PDF-1.7\n");
    let mut offs: Vec<u64> = Vec::new();
    let mut i: usize = 0;
    while i < objs.len()
        invariant
            i <= objs@.len(),
            sobjs == objs@.map_values(|v: Vec<u8>| v@),
            sobjs.len() == objs@.len(),
            out@ + objs_bytes(sobjs, i as int) == full,
            out@.len() == offset_of(sobjs, i as int),
            offs@.len() == i,
            forall|j: int| 0 <= j < i ==> offs@[j] == offset_of(sobjs, j),
        decreases objs@.len() - i,
    {
        offs.push(out.len() as u64);
        let mut head = String::new();
        push_dec(&mut head, (i + 1) as u64);
        head.append(" 0 obj\n");
        push_str_bytes(&mut out, head.as_str());
        push_bytes(&mut out, &objs[i]);
        push_str_bytes(&mut out, "\nendobj\n");
        proof {
            assert(out@ + objs_bytes(sobjs, i as int + 1) =~= full);
            assert(out@.len() == offset_of(sobjs, i as int + 1));
        }
        i = i + 1;
    }
    proof {
        assert(objs_bytes(sobjs, sobjs.len() as int) =~= Seq::<u8>::empty());
        assert(out@ =~= full);
    }
    let mut tail = String::new();
    tail.append("xref\n0 ");
    push_dec(&mut tail, (objs.len() as u64) + 1);
    tail.append("\n0000000000 65535 f \n");
    let ghost tail_mid = tail@;
    let mut j: usize = 0;
    while j < objs.len()
        invariant
            j <= objs@.len(),
            sobjs.len() == objs@.len(),
            offs@.len() == objs@.len(),
            forall|k: int| 0 <= k < objs@.len() ==> offs@[k] == offset_of(sobjs, k),
            tail@ + xref_entries(sobjs, j as int) == tail_mid + xref_entries(sobjs, 0),
        decreases objs@.len() - j,
    {
        push_padded(&mut tail, offs[j], 10);
        tail.append(" 00000 n \n");
        proof {
            assert(tail@ + xref_entries(sobjs, j as int + 1) =~= tail_mid + xref_entries(
                sobjs,
                0,
            ));
        }
        j = j + 1;
    }
    proof {
        assert(xref_entries(sobjs, sobjs.len() as int) =~= Seq::<char>::empty());
    }
    tail.append("trailer\n<< /Size ");
    push_dec(&mut tail, (objs.len() as u64) + 1);
    tail.append(" /Root ");
    push_dec(&mut tail, catalog_id as u64);
    tail.append(" 0 R >>\nstartxref\n");
    push_dec(&mut tail, out.len() as u64);
    tail.append("\n%%EOF");
    proof {
        assert(tail@ =~= xref_table(sobjs) + file_trailer(sobjs, catalog_id as nat));
    }
    push_str_bytes(&mut out, tail.as_str());
    proof {
        assert(out@ =~= serialize_doc(sobjs, catalog_id as nat));
    }
    out
}

/// Builds a content stream object from its stream text.
pub fn build_content_obj(content: &String) -> (r: Vec<u8>)
    ensures
        r@ == content_stream_obj(content@),
{
    let content_bytes = content.as_str().as_bytes_vec();
    let mut s = String::new();
    s.append("<< /Length ");
    push_dec(&mut s, content_bytes.len() as u64);
    s.append(" >>\nstream\n");
    s.append(content.as_str());
    s.append("\nendstream");
    proof {
        assert(s@ =~= "<< /Length "@ + dec_chars(encode_utf8(content@).len()) + " >>\nstream\n"@
            + content@ + "\nendstream"@);
    }
    s.as_str().as_bytes_vec()
}

/// Builds an image XObject from its dimensions and RGB samples.
pub fn build_image_obj(w: u32, h: u32, samples: &Vec<u8>) -> (r: Vec<u8>)
    ensures
        r@ == image_obj(w, h, samples@),
{
    let mut head = String::new();
    head.append("<< /Type /XObject /Subtype /Image /Width ");
    push_dec(&mut head, w as u64);
    head.append(" /Height ");
    push_dec(&mut head, h as u64);
    head.append(" /ColorSpace /DeviceRGB /BitsPerComponent 8 /Length ");
    push_dec(&mut head, samples.len() as u64);
    head.append(" >>\nstream\n");
    let mut r = head.as_str().as_bytes_vec();
    push_bytes(&mut r, samples);
    push_str_bytes(&mut r, "\nendstream");
    proof {
        assert(r@ =~= image_obj(w, h, samples@));
    }
    r
}

/// Builds a page object.
pub fn build_page_obj(
    w: i64,
    h: i64,
    content_id: usize,
    annots: &Vec<usize>,
    images: &Vec<usize>,
) -> (r: Vec<u8>)
    requires
        w > i64::MIN,
        h > i64::MIN,
    ensures
        r@ == page_obj(w as int, h as int, content_id, annots@, images@),
{
    let mut s = String::new();
    s.append("<< /Type /Page /Parent 3 0 R /MediaBox [0 0 ");
    push_fixed(&mut s, w);
    s.append(" ");
    push_fixed(&mut s, h);
    s.append("] /Contents ");
    push_dec(&mut s, content_id as u64);
    s.append(" 0 R");
    if annots.len() > 0 {
        s.append(" /Annots [");
        push_refs(&mut s, annots);
        s.append("]");
    }
    s.append(" /Resources << /Font << /F1 1 0 R /F2 2 0 R >> ");
    if images.len() > 0 {
        s.append("/XObject << ");
        push_image_pairs(&mut s, images);
        s.append(">> ");
    }
    s.append(">> >>");
    proof {
        assert(s@ =~= "<< /Type /Page /Parent 3 0 R /MediaBox [0 0 "@ + fixed_chars(w as int)
            + " "@ + fixed_chars(h as int) + "] /Contents "@ + dec_chars(content_id as nat)
            + " 0 R"@ + (if annots@.len() > 0 {
            " /Annots ["@ + refs_list(annots@, 0) + "]"@
        } else {
            Seq::empty()
        }) + " /Resources << /Font << /F1 1 0 R /F2 2 0 R >> "@ + (if images@.len() > 0 {
            "/XObject << "@ + image_pairs(images@, 0) + ">> "@
        } else {
            Seq::empty()
        }) + ">> >>"@);
    }
    s.as_str().as_bytes_vec()
}

/// Appends an indirect-reference list.
fn push_refs(s: &mut String, ids: &Vec<usize>)
    ensures
        final(s)@ == old(s)@ + refs_list(ids@, 0),
{
    let mut i: usize = 0;
    while i < ids.len()
        invariant
            i <= ids@.len(),
            s@ + refs_list(ids@, i as int) == old(s)@ + refs_list(ids@, 0),
        decreases ids@.len() - i,
    {
        push_dec(s, ids[i] as u64);
        s.append(" 0 R ");
        proof {
            assert(s@ + refs_list(ids@, i as int + 1) =~= old(s)@ + refs_list(ids@, 0));
        }
        i = i + 1;
    }
    proof {
        assert(refs_list(ids@, ids@.len() as int) =~= Seq::<char>::empty());
    }
}

/// Appends XObject resource entries.
fn push_image_pairs(s: &mut String, ids: &Vec<usize>)
    ensures
        final(s)@ == old(s)@ + image_pairs(ids@, 0),
{
    let mut i: usize = 0;
    while i < ids.len()
        invariant
            i <= ids@.len(),
            s@ + image_pairs(ids@, i as int) == old(s)@ + image_pairs(ids@, 0),
        decreases ids@.len() - i,
    {
        s.append("/Im");
        push_dec(s, ids[i] as u64);
        s.append(" ");
        push_dec(s, ids[i] as u64);
        s.append(" 0 R ");
        proof {
            assert(s@ + image_pairs(ids@, i as int + 1) =~= old(s)@ + image_pairs(ids@, 0));
        }
        i = i + 1;
    }
    proof {
        assert(image_pairs(ids@, ids@.len() as int) =~= Seq::<char>::empty());
    }
}

/// Builds a standard Type 1 font object.
pub fn build_font_obj(name: &str) -> (r: Vec<u8>)
    ensures
        r@ == font_obj(name@),
{
    let mut s = String::new();
    s.append("<< /Type /Font /Subtype /Type1 /BaseFont /");
    s.append(name);
    s.append(" >>");
    proof {
        assert(s@ =~= "<< /Type /Font /Subtype /Type1 /BaseFont /"@ + name@ + " >>"@);
    }
    s.as_str().as_bytes_vec()
}

/// Builds the page tree node.
pub fn build_pages_tree_obj(kids: &Vec<usize>) -> (r: Vec<u8>)
    ensures
        r@ == pages_tree_obj(kids@),
{
    let mut s = String::new();
    s.append("<< /Type /Pages /Kids [");
    push_refs(&mut s, kids);
    s.append("] /Count ");
    push_dec(&mut s, kids.len() as u64);
    s.append(" >>");
    proof {
        assert(s@ =~= "<< /Type /Pages /Kids ["@ + refs_list(kids@, 0) + "] /Count "@ + dec_chars(
            kids@.len(),
        ) + " >>"@);
    }
    s.as_str().as_bytes_vec()
}

/// Builds the document catalog.
pub fn build_catalog_obj(acro: &Vec<usize>) -> (r: Vec<u8>)
    ensures
        r@ == catalog_obj(acro@),
{
    let mut s = String::new();
    s.append("<< /Type /Catalog /Pages 3 0 R");
    if acro.len() > 0 {
        s.append(" /AcroForm << /Fields [");
        push_refs(&mut s, acro);
        s.append("] >>");
    }
    s.append(" >>");
    proof {
        assert(s@ =~= "<< /Type /Catalog /Pages 3 0 R"@ + (if acro@.len() > 0 {
            " /AcroForm << /Fields ["@ + refs_list(acro@, 0) + "] >>"@
        } else {
            Seq::empty()
        }) + " >>"@);
    }
    s.as_str().as_bytes_vec()
}

} // verus!
