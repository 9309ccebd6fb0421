//! Overlay assembler.
//!
//! `PdfFieldRenderer` builds the overlay document: it groups fields by
//! page, iterates pages in ascending order, renders each field into the
//! page's content stream or as a widget annotation, embeds each image
//! once per field identifier, and emits the final page tree and catalog.
//! Pages without fields are omitted from the overlay entirely.
//!
//! The whole construction is modelled by a fold over the field list
//! (`step_field`, `fold_fields`, `step_page`, `fold_pages`): the bytes
//! and metadata returned by [`PdfFieldRenderer::create_populated_form`]
//! are exactly the value of that fold, which makes the output a pure
//! function of the inputs.

use vstd::prelude::*;
use vstd::utf8::encode_utf8;
use crate::numfmt::dec_chars;
use crate::images::{decode_image_rgb, image_ops, rgb_decode_of, render_image};
use crate::layout::{pos_ok, render_text, text_field_ops};
use crate::objects::{
    build_catalog_obj, build_content_obj, build_font_obj, build_image_obj, build_page_obj,
    build_pages_tree_obj, content_stream_obj, image_obj, page_obj, serialize_doc,
    serialize_document, catalog_obj, font_obj, pages_tree_obj,
};
use crate::ops::{op_begin_text, op_end_text, push_begin_text, push_end_text};
use crate::types::{
    coord_ok, field_ok, page_ok, FieldData, FieldDataV, FieldValue, FieldValueV, ImageFitMode,
    ImageSource, ImageSourceV, PageMetadata, PageMetadataV, PdfDocument, PdfPageInfo,
    ProcessingMetadata, ProcessingMetadataV,
};
use crate::widgets::{
    build_off_appearance, build_on_appearance, build_widget_dict, off_appearance_obj,
    on_appearance_obj, widget_dict,
};
use vstd::string::StrSliceExecFns;
use vstd::pervasive::VecAdditionalExecFns;

verus! {

/// The view of the field list.
pub open spec fn fields_view(fields: Seq<FieldData>) -> Seq<FieldDataV> {
    fields.map_values(|f: FieldData| f@)
}

/// The warning recorded when a field names a page the template lacks.
pub open spec fn page_warning(p: u32) -> Seq<char> {
    "Page "@ + dec_chars(p as nat) + " not found in template"@
}

/// The warning recorded when an image source is still remote.
pub open spec fn url_skip_warning(id: Seq<char>) -> Seq<char> {
    "Skipped URL image for field "@ + id
}

/// The error recorded when an image payload cannot be decoded.
pub open spec fn embed_error(id: Seq<char>) -> Seq<char> {
    "Failed to embed image "@ + id
}

/// The spec state of a renderer: object slots (object `i + 1` at index
/// `i`, `None` while pending), the metadata accumulator, the image memo
/// keyed by field identifier, and the document-level field list.
#[verifier::ext_equal]
pub struct RendererV {
    pub slots: Seq<Option<Seq<u8>>>,
    pub meta: ProcessingMetadataV,
    pub memo: Seq<(Seq<char>, (usize, u32, u32))>,
    pub acro: Seq<usize>,
}

/// The accumulator while building one page: the renderer state, the
/// page's content stream text, its annotation list, and the images it
/// references.
#[verifier::ext_equal]
pub struct PageAcc {
    pub st: RendererV,
    pub content: Seq<char>,
    pub annots: Seq<usize>,
    pub imgs: Seq<usize>,
}

/// A fresh renderer: two pending font slots, empty metadata.
pub open spec fn renderer_init() -> RendererV {
    RendererV {
        slots: seq![None, None],
        meta: ProcessingMetadataV {
            pages: Seq::empty(),
            fields_processed: 0,
            fields_skipped: 0,
            warnings: Seq::empty(),
            errors: Seq::empty(),
        },
        memo: Seq::empty(),
        acro: Seq::empty(),
    }
}

/// Fields counted once each, whether processed or skipped.
pub open spec fn meta_total(m: ProcessingMetadataV) -> nat {
    m.fields_processed + m.fields_skipped
}

/// First memo entry for `id`, if any.
pub open spec fn memo_find(
    memo: Seq<(Seq<char>, (usize, u32, u32))>,
    i: int,
    id: Seq<char>,
) -> Option<(usize, u32, u32)>
    decreases memo.len() - i,
{
    if i < 0 || i >= memo.len() {
        None
    } else if memo[i].0 == id {
        Some(memo[i].1)
    } else {
        memo_find(memo, i + 1, id)
    }
}

/// The fit mode of a field, defaulted to `Contain`.
pub open spec fn fit_mode_of(f: FieldDataV) -> ImageFitMode {
    match f.fit_mode {
        Some(m) => m,
        None => ImageFitMode::Contain,
    }
}

/// One field rendered into the page accumulator. The field's rectangle
/// is converted from top-left origin to the page's bottom-left origin.
pub open spec fn step_field(acc: PageAcc, f: FieldDataV, pw: int, ph: int) -> PageAcc {
    let pdf_y = ph - f.y - f.height;
    match f.value {
        FieldValueV::TextV(t) => step_text(acc, f, pdf_y, t),
        FieldValueV::NumberV(t) => step_text(acc, f, pdf_y, t),
        FieldValueV::DateV(t) => step_text(acc, f, pdf_y, t),
        FieldValueV::DropdownV(t) => step_text(acc, f, pdf_y, t),
        FieldValueV::CheckboxV(b) => step_button(acc, f, pdf_y, false, "4"@, b),
        FieldValueV::RadioV(_) => step_button(acc, f, pdf_y, true, "l"@, true),
        FieldValueV::ImageV(src) => step_image(acc, f, pdf_y, src),
        FieldValueV::SignatureV(src) => step_image(acc, f, pdf_y, src),
    }
}

/// A text-like field: one text object appended to the content stream.
pub open spec fn step_text(acc: PageAcc, f: FieldDataV, pdf_y: int, t: Seq<char>) -> PageAcc {
    PageAcc {
        content: acc.content + op_begin_text() + text_field_ops(
            t,
            f.x,
            pdf_y,
            f.width,
            f.height,
            f.font_size,
            f.alignment,
            f.vertical_alignment,
        ) + op_end_text(),
        st: RendererV {
            meta: ProcessingMetadataV {
                fields_processed: acc.st.meta.fields_processed + 1,
                ..acc.st.meta
            },
            ..acc.st
        },
        ..acc
    }
}

/// A checkbox or radio field: three new objects (widget dictionary, and
/// the `Yes` and `Off` appearance streams), one annotation reference.
pub open spec fn step_button(
    acc: PageAcc,
    f: FieldDataV,
    pdf_y: int,
    radio: bool,
    glyph: Seq<char>,
    on_state: bool,
) -> PageAcc {
    let n = acc.st.slots.len();
    let dict = widget_dict(
        f.field_id,
        radio,
        f.x,
        pdf_y,
        f.width,
        f.height,
        on_state,
        n + 2,
        n + 3,
    );
    PageAcc {
        st: RendererV {
            slots: acc.st.slots + seq![
                Some(encode_utf8(dict)),
                Some(encode_utf8(on_appearance_obj(f.width, f.height, glyph))),
                Some(encode_utf8(off_appearance_obj(f.width, f.height))),
            ],
            meta: ProcessingMetadataV {
                fields_processed: acc.st.meta.fields_processed + 1,
                ..acc.st.meta
            },
            acro: acc.st.acro + seq![(n + 1) as usize],
            ..acc.st
        },
        annots: acc.annots + seq![(n + 1) as usize],
        ..acc
    }
}

/// An image or signature field: a remote source is skipped with a
/// warning; an inline payload is embedded once per field identifier and
/// drawn per the field's fit mode; an undecodable payload is skipped
/// with an error.
pub open spec fn step_image(acc: PageAcc, f: FieldDataV, pdf_y: int, src: ImageSourceV) -> PageAcc {
    match src {
        ImageSourceV::RemoteV(_) => PageAcc {
            st: RendererV {
                meta: ProcessingMetadataV {
                    fields_skipped: acc.st.meta.fields_skipped + 1,
                    warnings: acc.st.meta.warnings + seq![url_skip_warning(f.field_id)],
                    ..acc.st.meta
                },
                ..acc.st
            },
            ..acc
        },
        ImageSourceV::InlineV(data) => {
            match memo_find(acc.st.memo, 0, f.field_id) {
                Some(entry) => PageAcc {
                    content: acc.content + image_ops(
                        entry.0 as nat,
                        f.x,
                        pdf_y,
                        f.width,
                        f.height,
                        entry.1,
                        entry.2,
                        fit_mode_of(f),
                    ),
                    imgs: acc.imgs + seq![entry.0],
                    st: RendererV {
                        meta: ProcessingMetadataV {
                            fields_processed: acc.st.meta.fields_processed + 1,
                            ..acc.st.meta
                        },
                        ..acc.st
                    },
                    ..acc
                },
                None => {
                    match rgb_decode_of(data) {
                        None => PageAcc {
                            st: RendererV {
                                meta: ProcessingMetadataV {
                                    fields_skipped: acc.st.meta.fields_skipped + 1,
                                    errors: acc.st.meta.errors + seq![embed_error(f.field_id)],
                                    ..acc.st.meta
                                },
                                ..acc.st
                            },
                            ..acc
                        },
                        Some(dec) => {
                            let id = (acc.st.slots.len() + 1) as usize;
                            PageAcc {
                                content: acc.content + image_ops(
                                    id as nat,
                                    f.x,
                                    pdf_y,
                                    f.width,
                                    f.height,
                                    dec.0,
                                    dec.1,
                                    fit_mode_of(f),
                                ),
                                imgs: acc.imgs + seq![id],
                                annots: acc.annots,
                                st: RendererV {
                                    slots: acc.st.slots + seq![
                                        Some(image_obj(dec.0, dec.1, dec.2)),
                                    ],
                                    memo: acc.st.memo + seq![(f.field_id, (id, dec.0, dec.1))],
                                    meta: ProcessingMetadataV {
                                        fields_processed: acc.st.meta.fields_processed + 1,
                                        ..acc.st.meta
                                    },
                                    ..acc.st
                                },
                            }
                        },
                    }
                },
            }
        },
    }
}

/// The fields from index `j` on that target page `p`, folded into the
/// accumulator in order.
pub open spec fn fold_fields(
    fields: Seq<FieldDataV>,
    j: int,
    p: u32,
    pw: int,
    ph: int,
    acc: PageAcc,
) -> PageAcc
    decreases fields.len() - j,
{
    if j < 0 || j >= fields.len() {
        acc
    } else {
        fold_fields(
            fields,
            j + 1,
            p,
            pw,
            ph,
            if fields[j].page == p {
                step_field(acc, fields[j], pw, ph)
            } else {
                acc
            },
        )
    }
}

/// How many fields from index `j` on target page `p`.
pub open spec fn count_page(fields: Seq<FieldDataV>, j: int, p: u32) -> nat
    decreases fields.len() - j,
{
    if j < 0 || j >= fields.len() {
        0
    } else {
        (if fields[j].page == p {
            1nat
        } else {
            0nat
        }) + count_page(fields, j + 1, p)
    }
}

/// One referenced page handled: a missing page skips its whole group
/// with one warning; an existing page emits a content stream object and
/// a page object, and appends the page to the kid list.
pub open spec fn step_page(
    st: RendererV,
    kids: Seq<usize>,
    fields: Seq<FieldDataV>,
    p: u32,
    pages: Seq<PdfPageInfo>,
) -> (RendererV, Seq<usize>) {
    let cnt = count_page(fields, 0, p);
    if p as int >= pages.len() {
        (
            RendererV {
                meta: ProcessingMetadataV {
                    fields_skipped: st.meta.fields_skipped + cnt,
                    warnings: st.meta.warnings + seq![page_warning(p)],
                    ..st.meta
                },
                ..st
            },
            kids,
        )
    } else {
        let info = pages[p as int];
        let content_idx = st.slots.len() as int;
        let page_idx = content_idx + 1;
        let st1 = RendererV {
            slots: st.slots + seq![None, None],
            meta: ProcessingMetadataV {
                pages: st.meta.pages + seq![
                    PageMetadataV {
                        page_number: p,
                        width: info.width as int,
                        height: info.height as int,
                        fields_count: cnt,
                    },
                ],
                ..st.meta
            },
            ..st
        };
        let acc = fold_fields(
            fields,
            0,
            p,
            info.width as int,
            info.height as int,
            PageAcc { st: st1, content: Seq::empty(), annots: Seq::empty(), imgs: Seq::empty() },
        );
        let st2 = RendererV {
            slots: acc.st.slots.update(content_idx, Some(content_stream_obj(acc.content))).update(
                page_idx,
                Some(
                    page_obj(
                        info.width as int,
                        info.height as int,
                        (content_idx + 1) as usize,
                        acc.annots,
                        acc.imgs,
                    ),
                ),
            ),
            ..acc.st
        };
        (st2, kids + seq![(page_idx + 1) as usize])
    }
}

/// The referenced pages from index `i` on, folded in order.
pub open spec fn fold_pages(
    plist: Seq<u32>,
    i: int,
    fields: Seq<FieldDataV>,
    pages: Seq<PdfPageInfo>,
    st: RendererV,
    kids: Seq<usize>,
) -> (RendererV, Seq<usize>)
    decreases plist.len() - i,
{
    if i < 0 || i >= plist.len() {
        (st, kids)
    } else {
        let next = step_page(st, kids, fields, plist[i], pages);
        fold_pages(plist, i + 1, fields, pages, next.0, next.1)
    }
}

/// `s` with `p` inserted in ascending position, unless already present.
pub open spec fn insert_page(s: Seq<u32>, p: u32) -> Seq<u32>
    decreases s.len(),
{
    if s.len() == 0 {
        seq![p]
    } else if p < s[0] {
        seq![p] + s
    } else if p == s[0] {
        s
    } else {
        seq![s[0]] + insert_page(s.drop_first(), p)
    }
}

/// The ascending duplicate-free list of pages referenced by the fields
/// from index `j` on, accumulated into `acc`.
pub open spec fn collect_pages(fields: Seq<FieldDataV>, j: int, acc: Seq<u32>) -> Seq<u32>
    decreases fields.len() - j,
{
    if j < 0 || j >= fields.len() {
        acc
    } else {
        collect_pages(fields, j + 1, insert_page(acc, fields[j].page))
    }
}

/// The finished document: font and page-tree slots filled, the catalog
/// appended, and the whole object list serialized.
pub open spec fn finish_doc(st: RendererV, kids: Seq<usize>) -> Seq<u8> {
    let slots = st.slots.update(0, Some(font_obj("Helvetica"@))).update(
        1,
        Some(font_obj("ZapfDingbats"@)),
    ).update(2, Some(pages_tree_obj(kids))) + seq![Some(catalog_obj(st.acro))];
    let objs = slots.map_values(
        |o: Option<Seq<u8>>|
            match o {
                Some(b) => b,
                None => Seq::empty(),
            },
    );
    serialize_doc(objs, slots.len())
}

/// The overlay bytes and metadata for a field list and a page list.
pub open spec fn render_spec(fields: Seq<FieldDataV>, pages: Seq<PdfPageInfo>) -> (
    Seq<u8>,
    ProcessingMetadataV,
) {
    let st0 = RendererV { slots: renderer_init().slots + seq![None], ..renderer_init() };
    let plist = collect_pages(fields, 0, Seq::empty());
    let folded = fold_pages(plist, 0, fields, pages, st0, Seq::empty());
    (finish_doc(folded.0, folded.1), folded.0.meta)
}

/// The overlay renderer: object slots, metadata, and the per-identifier
/// image memo.
pub struct PdfFieldRenderer {
    objects: Vec<Option<Vec<u8>>>,
    /// The metadata accumulated so far.
    pub metadata: ProcessingMetadata,
    image_refs: Vec<(String, usize, u32, u32)>,
    acro_refs: Vec<usize>,
}

/// The slot views of an object vector.
pub open spec fn slots_view(objects: Seq<Option<Vec<u8>>>) -> Seq<Option<Seq<u8>>> {
    objects.map_values(
        |o: Option<Vec<u8>>|
            match o {
                Some(b) => Some(b@),
                None => None,
            },
    )
}

impl View for PdfFieldRenderer {
    type V = RendererV;

    closed spec fn view(&self) -> RendererV {
        RendererV {
            slots: slots_view(self.objects@),
            meta: self.metadata@,
            memo: self.image_refs@.map_values(
                |e: (String, usize, u32, u32)| (e.0@, (e.1, e.2, e.3)),
            ),
            acro: self.acro_refs@,
        }
    }
}

impl PdfFieldRenderer {
    /// A fresh renderer with empty metadata.
    pub fn new() -> (r: Self)
        ensures
            r@ == renderer_init(),
    {
        let mut objects: Vec<Option<Vec<u8>>> = Vec::new();
        objects.push(None);
        objects.push(None);
        let r = PdfFieldRenderer {
            objects,
            metadata: ProcessingMetadata {
                pages: Vec::new(),
                fields_processed: 0,
                fields_skipped: 0,
                warnings: Vec::new(),
                errors: Vec::new(),
            },
            image_refs: Vec::new(),
            acro_refs: Vec::new(),
        };
        proof {
            assert(r@ =~~= renderer_init());
        }
        r
    }

    /// Looks up the image memo by field identifier.
    fn memo_lookup(&self, id: &String) -> (r: Option<(usize, u32, u32)>)
        ensures
            r == memo_find(self@.memo, 0, id@),
    {
        let mut k: usize = 0;
        while k < self.image_refs.len()
            invariant
                k <= self.image_refs@.len(),
                memo_find(self@.memo, 0, id@) == memo_find(self@.memo, k as int, id@),
            decreases self.image_refs@.len() - k,
        {
            if self.image_refs[k].0 == *id {
                return Some(
                    (self.image_refs[k].1, self.image_refs[k].2, self.image_refs[k].3),
                );
            }
            k = k + 1;
        }
        None
    }
}

/// How often `v` occurs in `pl` from index `i` on.
pub open spec fn occ(pl: Seq<u32>, i: int, v: u32) -> nat
    decreases pl.len() - i,
{
    if i < 0 || i >= pl.len() {
        0
    } else {
        (if pl[i] == v {
            1nat
        } else {
            0nat
        }) + occ(pl, i + 1, v)
    }
}

/// Strictly ascending (hence duplicate-free).
pub open spec fn strictly_sorted(s: Seq<u32>) -> bool {
    forall|a: int, b: int| 0 <= a < b < s.len() ==> s[a] < s[b]
}

/// The sum over the pages from index `i` on of each page's field count.
pub open spec fn sum_counts(fields: Seq<FieldDataV>, pl: Seq<u32>, i: int) -> nat
    decreases pl.len() - i,
{
    if i < 0 || i >= pl.len() {
        0
    } else {
        count_page(fields, 0, pl[i]) + sum_counts(fields, pl, i + 1)
    }
}

/// A value absent from `pl[i..]` occurs zero times there.
proof fn lemma_occ_zero(pl: Seq<u32>, i: int, v: u32)
    requires
        forall|k: int| i <= k < pl.len() ==> pl[k] != v,
    ensures
        occ(pl, i, v) == 0,
    decreases pl.len() - i,
{
    if 0 <= i < pl.len() {
        lemma_occ_zero(pl, i + 1, v);
    }
}

/// In a strictly ascending list every value occurs at most once.
proof fn lemma_occ_le_one(pl: Seq<u32>, i: int, v: u32)
    requires
        strictly_sorted(pl),
    ensures
        occ(pl, i, v) <= 1,
    decreases pl.len() - i,
{
    if 0 <= i < pl.len() {
        if pl[i] == v {
            assert forall|k: int| i + 1 <= k < pl.len() implies pl[k] != v by {
                assert(pl[i] < pl[k]);
            }
            lemma_occ_zero(pl, i + 1, v);
        } else {
            lemma_occ_le_one(pl, i + 1, v);
        }
    }
}

/// Counting from `j` splits off field `j`'s contribution to the sum.
proof fn lemma_sum_unfold(fields: Seq<FieldDataV>, j: int, pl: Seq<u32>, i: int)
    requires
        0 <= j < fields.len(),
    ensures
        sum_counts_from(fields, j, pl, i) == sum_counts_from(fields, j + 1, pl, i) + occ(
            pl,
            i,
            fields[j].page,
        ),
    decreases pl.len() - i,
{
    if 0 <= i < pl.len() {
        lemma_sum_unfold(fields, j, pl, i + 1);
    }
}

/// The sum over pages of counts from field index `j` on.
pub open spec fn sum_counts_from(fields: Seq<FieldDataV>, j: int, pl: Seq<u32>, i: int) -> nat
    decreases pl.len() - i,
{
    if i < 0 || i >= pl.len() {
        0
    } else {
        count_page(fields, j, pl[i]) + sum_counts_from(fields, j, pl, i + 1)
    }
}

/// With no fields left, every count is zero.
proof fn lemma_sum_empty(fields: Seq<FieldDataV>, j: int, pl: Seq<u32>, i: int)
    requires
        j >= fields.len(),
    ensures
        sum_counts_from(fields, j, pl, i) == 0,
    decreases pl.len() - i,
{
    if 0 <= i < pl.len() {
        lemma_sum_empty(fields, j, pl, i + 1);
    }
}

/// Over a strictly ascending page list, the group sizes sum to at most
/// the number of fields: the groups are disjoint.
proof fn lemma_sum_bound(fields: Seq<FieldDataV>, j: int, pl: Seq<u32>)
    requires
        strictly_sorted(pl),
        0 <= j <= fields.len(),
    ensures
        sum_counts_from(fields, j, pl, 0) <= fields.len() - j,
    decreases fields.len() - j,
{
    if j >= fields.len() {
        lemma_sum_empty(fields, j, pl, 0);
    } else {
        lemma_sum_unfold(fields, j, pl, 0);
        lemma_occ_le_one(pl, 0, fields[j].page);
        lemma_sum_bound(fields, j + 1, pl);
    }
}

/// Inserting keeps membership: exactly the old elements plus `p`.
proof fn lemma_insert_contains(s: Seq<u32>, p: u32, v: u32)
    ensures
        insert_page(s, p).contains(v) <==> (s.contains(v) || v == p),
    decreases s.len(),
{
    if s.len() == 0 {
        let t = insert_page(s, p);
        assert(t =~= seq![p]);
        assert(t.contains(v) <==> v == p) by {
            if t.contains(v) {
                let k = choose|k: int| 0 <= k < t.len() && t[k] == v;
                assert(k == 0);
            }
            if v == p {
                assert(t[0] == v);
            }
        }
        assert(!s.contains(v));
    } else if p < s[0] {
        assert(insert_page(s, p) =~= seq![p] + s);
        assert(insert_page(s, p).contains(v) <==> (v == p || s.contains(v))) by {
            let t = seq![p] + s;
            if t.contains(v) {
                let k = choose|k: int| 0 <= k < t.len() && t[k] == v;
                if k == 0 {
                } else {
                    assert(s[k - 1] == v);
                }
            }
            if v == p {
                assert(t[0] == v);
            }
            if s.contains(v) {
                let k = choose|k: int| 0 <= k < s.len() && s[k] == v;
                assert(t[k + 1] == v);
            }
        }
    } else if p == s[0] {
    } else {
        lemma_insert_contains(s.drop_first(), p, v);
        let t = seq![s[0]] + insert_page(s.drop_first(), p);
        assert(insert_page(s, p) =~= t);
        assert(t.contains(v) <==> (v == s[0] || insert_page(s.drop_first(), p).contains(v))) by {
            if t.contains(v) {
                let k = choose|k: int| 0 <= k < t.len() && t[k] == v;
                if k == 0 {
                } else {
                    assert(insert_page(s.drop_first(), p)[k - 1] == v);
                }
            }
            if v == s[0] {
                assert(t[0] == v);
            }
            if insert_page(s.drop_first(), p).contains(v) {
                let k = choose|k: int|
                    0 <= k < insert_page(s.drop_first(), p).len() && insert_page(
                        s.drop_first(),
                        p,
                    )[k] == v;
                assert(t[k + 1] == v);
            }
        }
        assert(s.contains(v) <==> (v == s[0] || s.drop_first().contains(v))) by {
            if s.contains(v) {
                let k = choose|k: int| 0 <= k < s.len() && s[k] == v;
                if k == 0 {
                } else {
                    assert(s.drop_first()[k - 1] == v);
                }
            }
            if v == s[0] {
                assert(s[0] == v);
            }
            if s.drop_first().contains(v) {
                let k = choose|k: int| 0 <= k < s.drop_first().len() && s.drop_first()[k] == v;
                assert(s[k + 1] == v);
            }
        }
    }
}

/// Inserting keeps the list strictly ascending.
proof fn lemma_insert_sorted(s: Seq<u32>, p: u32)
    requires
        strictly_sorted(s),
    ensures
        strictly_sorted(insert_page(s, p)),
    decreases s.len(),
{
    if s.len() == 0 {
    } else if p < s[0] {
        let t = seq![p] + s;
        assert forall|a: int, b: int| 0 <= a < b < t.len() implies t[a] < t[b] by {
            if a == 0 {
                if b > 1 {
                    assert(s[0] < s[b - 1]);
                }
            } else {
                assert(s[a - 1] < s[b - 1]);
            }
        }
    } else if p == s[0] {
    } else {
        assert(strictly_sorted(s.drop_first())) by {
            assert forall|a: int, b: int|
                0 <= a < b < s.drop_first().len() implies s.drop_first()[a] < s.drop_first()[b] by {
                assert(s[a + 1] < s[b + 1]);
            }
        }
        lemma_insert_sorted(s.drop_first(), p);
        let rest = insert_page(s.drop_first(), p);
        let t = seq![s[0]] + rest;
        assert forall|a: int, b: int| 0 <= a < b < t.len() implies t[a] < t[b] by {
            if a == 0 {
                assert(rest.contains(rest[b - 1]));
                lemma_insert_contains(s.drop_first(), p, rest[b - 1]);
                if rest[b - 1] == p {
                    assert(s[0] < p);
                } else {
                    let k = choose|k: int|
                        0 <= k < s.drop_first().len() && s.drop_first()[k] == rest[b - 1];
                    assert(s[0] < s[k + 1]);
                }
            } else {
                assert(rest[a - 1] < rest[b - 1]);
            }
        }
    }
}

/// The collected page list is strictly ascending.
proof fn lemma_collect_sorted(fields: Seq<FieldDataV>, j: int, acc: Seq<u32>)
    requires
        strictly_sorted(acc),
    ensures
        strictly_sorted(collect_pages(fields, j, acc)),
    decreases fields.len() - j,
{
    if 0 <= j < fields.len() {
        lemma_insert_sorted(acc, fields[j].page);
        lemma_collect_sorted(fields, j + 1, insert_page(acc, fields[j].page));
    }
}

/// Inserts `p` into an ascending vector, keeping it duplicate-free.
fn insert_sorted(v: &mut Vec<u32>, p: u32)
    ensures
        final(v)@ == insert_page(old(v)@, p),
        final(v)@.len() <= old(v)@.len() + 1,
{
    let mut i: usize = 0;
    while i < v.len() && v[i] < p
        invariant
            i <= v@.len(),
            forall|k: int| 0 <= k < i ==> v@[k] < p,
        decreases v@.len() - i,
    {
        i = i + 1;
    }
    if i < v.len() && v[i] == p {
        proof {
            lemma_insert_page_at(v@, p, i as int);
        }
        return ;
    }
    v.insert(i, p);
    proof {
        lemma_insert_page_at(old(v)@, p, i as int);
        lemma_insert_len(old(v)@, p);
    }
}

/// Where the scan stopped determines what `insert_page` yields.
proof fn lemma_insert_page_at(s: Seq<u32>, p: u32, idx: int)
    requires
        0 <= idx <= s.len(),
        forall|k: int| 0 <= k < idx ==> s[k] < p,
        idx < s.len() ==> s[idx] >= p,
    ensures
        idx < s.len() && s[idx] == p ==> insert_page(s, p) == s,
        (idx == s.len() || s[idx] > p) ==> insert_page(s, p) == s.insert(idx, p),
    decreases s.len(),
{
    if s.len() == 0 {
        assert(insert_page(s, p) =~= s.insert(0, p));
    } else if idx == 0 {
        if s[0] == p {
        } else {
            assert(p < s[0]);
            assert(insert_page(s, p) =~= s.insert(0, p));
        }
    } else {
        assert(s[0] < p);
        lemma_insert_page_at(s.drop_first(), p, idx - 1);
        if idx < s.len() && s[idx] == p {
            assert(s.drop_first()[idx - 1] == p);
            assert(insert_page(s, p) =~= s);
        } else {
            assert(insert_page(s, p) =~= s.insert(idx, p));
        }
    }
}

/// Inserting grows the list by at most one element.
proof fn lemma_insert_len(s: Seq<u32>, p: u32)
    ensures
        insert_page(s, p).len() <= s.len() + 1,
    decreases s.len(),
{
    if s.len() == 0 {
    } else if p < s[0] {
    } else if p == s[0] {
    } else {
        lemma_insert_len(s.drop_first(), p);
    }
}

/// One field step adds exactly one to the processed/skipped total and
/// at most three object slots, and never touches the page summaries.
/// Growth bounds for the text arm of the field step.
#[verifier::rlimit(100)]
proof fn lemma_step_text_growth(acc: PageAcc, f: FieldDataV, pdf_y: int, t: Seq<char>)
    ensures
        meta_total(step_text(acc, f, pdf_y, t).st.meta) == meta_total(acc.st.meta) + 1,
        step_text(acc, f, pdf_y, t).st.slots == acc.st.slots,
{
}

/// Growth bounds for the button arm of the field step.
#[verifier::rlimit(100)]
proof fn lemma_step_button_growth(
    acc: PageAcc,
    f: FieldDataV,
    pdf_y: int,
    radio: bool,
    glyph: Seq<char>,
    on_state: bool,
)
    ensures
        meta_total(step_button(acc, f, pdf_y, radio, glyph, on_state).st.meta) == meta_total(
            acc.st.meta,
        ) + 1,
        step_button(acc, f, pdf_y, radio, glyph, on_state).st.slots.len() == acc.st.slots.len()
            + 3,
{
}

#[verifier::rlimit(100)]
proof fn lemma_step_field_growth(acc: PageAcc, f: FieldDataV, pw: int, ph: int)
    ensures
        meta_total(step_field(acc, f, pw, ph).st.meta) == meta_total(acc.st.meta) + 1,
        acc.st.slots.len() <= step_field(acc, f, pw, ph).st.slots.len() <= acc.st.slots.len() + 3,
{
    let pdf_y = ph - f.y - f.height;
    match f.value {
        FieldValueV::TextV(t) => lemma_step_text_growth(acc, f, pdf_y, t),
        FieldValueV::NumberV(t) => lemma_step_text_growth(acc, f, pdf_y, t),
        FieldValueV::DateV(t) => lemma_step_text_growth(acc, f, pdf_y, t),
        FieldValueV::DropdownV(t) => lemma_step_text_growth(acc, f, pdf_y, t),
        FieldValueV::CheckboxV(b) => lemma_step_button_growth(acc, f, pdf_y, false, "4"@, b),
        FieldValueV::RadioV(_) => lemma_step_button_growth(acc, f, pdf_y, true, "l"@, true),
        FieldValueV::ImageV(src) => lemma_step_image_growth(acc, f, pdf_y, src),
        FieldValueV::SignatureV(src) => lemma_step_image_growth(acc, f, pdf_y, src),
    }
}

/// Growth bounds for the image arm of the field step.
#[verifier::rlimit(100)]
proof fn lemma_step_image_growth(acc: PageAcc, f: FieldDataV, pdf_y: int, src: ImageSourceV)
    ensures
        meta_total(step_image(acc, f, pdf_y, src).st.meta) == meta_total(acc.st.meta) + 1,
        acc.st.slots.len() <= step_image(acc, f, pdf_y, src).st.slots.len() <= acc.st.slots.len()
            + 1,
{
    match src {
        ImageSourceV::RemoteV(_) => {},
        ImageSourceV::InlineV(data) => {
            match memo_find(acc.st.memo, 0, f.field_id) {
                Some(_) => {},
                None => {
                    match rgb_decode_of(data) {
                        None => {},
                        Some(_) => {},
                    }
                },
            }
        },
    }
}

/// Folding a page's fields adds the page's field count to the total and
/// at most three slots per field.
#[verifier::rlimit(60)]
proof fn lemma_fold_fields_growth(
    fields: Seq<FieldDataV>,
    j: int,
    p: u32,
    pw: int,
    ph: int,
    acc: PageAcc,
)
    ensures
        meta_total(fold_fields(fields, j, p, pw, ph, acc).st.meta) == meta_total(acc.st.meta)
            + count_page(fields, j, p),
        acc.st.slots.len() <= fold_fields(fields, j, p, pw, ph, acc).st.slots.len()
            <= acc.st.slots.len() + 3 * count_page(fields, j, p),
    decreases fields.len() - j,
{
    if j < 0 || j >= fields.len() {
    } else {
        if fields[j].page == p {
            lemma_step_field_growth(acc, fields[j], pw, ph);
            lemma_fold_fields_growth(fields, j + 1, p, pw, ph, step_field(acc, fields[j], pw, ph));
        } else {
            lemma_fold_fields_growth(fields, j + 1, p, pw, ph, acc);
        }
    }
}

/// One page step adds the page's field count to the total, at most two
/// slots plus three per field, and at most one kid.
#[verifier::rlimit(60)]
proof fn lemma_step_page_growth(
    st: RendererV,
    kids: Seq<usize>,
    fields: Seq<FieldDataV>,
    p: u32,
    pages: Seq<PdfPageInfo>,
)
    ensures
        meta_total(step_page(st, kids, fields, p, pages).0.meta) == meta_total(st.meta)
            + count_page(fields, 0, p),
        st.slots.len() <= step_page(st, kids, fields, p, pages).0.slots.len() <= st.slots.len() + 2
            + 3 * count_page(fields, 0, p),
        kids.len() <= step_page(st, kids, fields, p, pages).1.len() <= kids.len() + 1,
{
    if p as int >= pages.len() {
    } else {
        let info = pages[p as int];
        let cnt = count_page(fields, 0, p);
        let st1 = RendererV {
            slots: st.slots + seq![None, None],
            meta: ProcessingMetadataV {
                pages: st.meta.pages + seq![
                    PageMetadataV {
                        page_number: p,
                        width: info.width as int,
                        height: info.height as int,
                        fields_count: cnt,
                    },
                ],
                ..st.meta
            },
            ..st
        };
        lemma_fold_fields_growth(
            fields,
            0,
            p,
            info.width as int,
            info.height as int,
            PageAcc { st: st1, content: Seq::empty(), annots: Seq::empty(), imgs: Seq::empty() },
        );
    }
}

/// Counts the fields that target page `p`.
fn count_fields(fields: &Vec<FieldData>, p: u32) -> (cnt: usize)
    ensures
        cnt == count_page(fields_view(fields@), 0, p),
{
    let ghost fv = fields_view(fields@);
    let mut cnt: usize = 0;
    let mut j: usize = 0;
    while j < fields.len()
        invariant
            j <= fields@.len(),
            fv == fields_view(fields@),
            cnt <= j,
            count_page(fv, 0, p) == cnt + count_page(fv, j as int, p),
        decreases fields@.len() - j,
    {
        if fields[j].page == p {
            cnt = cnt + 1;
        }
        j = j + 1;
    }
    cnt
}


impl PdfFieldRenderer {
    /// Renders one field of the current page into the accumulator.
    #[verifier::rlimit(100)]
    fn process_field(
        &mut self,
        field: &FieldData,
        pw: i64,
        ph: i64,
        content: &mut String,
        annots: &mut Vec<usize>,
        imgs: &mut Vec<usize>,
    )
        requires
            field_ok(field@),
            coord_ok(pw as int),
            coord_ok(ph as int),
            old(self)@.slots.len() <= 2000000000,
            meta_total(old(self)@.meta) <= 400000000,
        ensures
            ({
                let r = step_field(
                    PageAcc {
                        st: old(self)@,
                        content: old(content)@,
                        annots: old(annots)@,
                        imgs: old(imgs)@,
                    },
                    field@,
                    pw as int,
                    ph as int,
                );
                final(self)@ == r.st && final(content)@ == r.content && final(annots)@ == r.annots
                    && final(imgs)@ == r.imgs
            }),
    {
        let ghost acc0 = PageAcc {
            st: old(self)@,
            content: old(content)@,
            annots: old(annots)@,
            imgs: old(imgs)@,
        };
        let pdf_y: i64 = ph - field.y - field.height;
        match &field.value {
            FieldValue::Text(t) => self.render_text_field(field, t, pdf_y, content),
            FieldValue::Number(t) => self.render_text_field(field, t, pdf_y, content),
            FieldValue::Date(t) => self.render_text_field(field, t, pdf_y, content),
            FieldValue::Dropdown(t) => self.render_text_field(field, t, pdf_y, content),
            FieldValue::Checkbox(b) => {
                let on = *b;
                self.add_button(field, pdf_y, false, "4", on, annots);
                proof {
                    assert(final(self)@ =~~= step_field(acc0, field@, pw as int, ph as int).st);
                    assert(final(annots)@ =~~= step_field(
                        acc0,
                        field@,
                        pw as int,
                        ph as int,
                    ).annots);
                }
            },
            FieldValue::Radio(_) => {
                self.add_button(field, pdf_y, true, "l", true, annots);
                proof {
                    assert(final(self)@ =~~= step_field(acc0, field@, pw as int, ph as int).st);
                    assert(final(annots)@ =~~= step_field(
                        acc0,
                        field@,
                        pw as int,
                        ph as int,
                    ).annots);
                }
            },
            FieldValue::Image(src) => self.add_image_source(field, src, pdf_y, content, imgs),
            FieldValue::Signature(src) => self.add_image_source(field, src, pdf_y, content, imgs),
        }
    }

    /// Renders a text-like value: a text object in the content stream.
    #[verifier::rlimit(100)]
    fn render_text_field(&mut self, field: &FieldData, t: &String, pdf_y: i64, content: &mut String)
        requires
            field_ok(field@),
            pos_ok(pdf_y as int),
            t@.len() <= crate::types::TEXT_LIMIT,
            meta_total(old(self)@.meta) <= 400000000,
        ensures
            ({
                let r = step_text(
                    PageAcc {
                        st: old(self)@,
                        content: old(content)@,
                        annots: Seq::empty(),
                        imgs: Seq::empty(),
                    },
                    field@,
                    pdf_y as int,
                    t@,
                );
                final(self)@ == r.st && final(content)@ == r.content
            }),
    {
        push_begin_text(content);
        render_text(
            content,
            t.as_str(),
            field.x,
            pdf_y,
            field.width,
            field.height,
            field.font_size,
            field.alignment,
            field.vertical_alignment,
        );
        push_end_text(content);
        self.metadata.fields_processed = self.metadata.fields_processed + 1;
        proof {
            let r = step_text(
                PageAcc {
                    st: old(self)@,
                    content: old(content)@,
                    annots: Seq::empty(),
                    imgs: Seq::empty(),
                },
                field@,
                pdf_y as int,
                t@,
            );
            assert(final(content)@ =~= r.content);
            assert(final(self)@ =~~= r.st);
        }
    }

    /// Emits a checkbox or radio widget: three objects and an
    /// annotation reference.
    #[verifier::rlimit(100)]
    fn add_button(
        &mut self,
        field: &FieldData,
        pdf_y: i64,
        radio: bool,
        glyph: &str,
        on_state: bool,
        annots: &mut Vec<usize>,
    )
        requires
            field_ok(field@),
            pos_ok(pdf_y as int),
            old(self)@.slots.len() <= 2000000000,
            meta_total(old(self)@.meta) <= 400000000,
        ensures
            ({
                let r = step_button(
                    PageAcc {
                        st: old(self)@,
                        content: Seq::empty(),
                        annots: old(annots)@,
                        imgs: Seq::empty(),
                    },
                    field@,
                    pdf_y as int,
                    radio,
                    glyph@,
                    on_state,
                );
                final(self)@ == r.st && final(annots)@ == r.annots
            }),
    {
        let n = self.objects.len();
        let dict = build_widget_dict(
            field.field_id.as_str(),
            radio,
            field.x,
            pdf_y,
            field.width,
            field.height,
            on_state,
            n + 2,
            n + 3,
        );
        self.objects.push(Some(dict.as_str().as_bytes_vec()));
        let on_obj = build_on_appearance(field.width, field.height, glyph);
        self.objects.push(Some(on_obj.as_str().as_bytes_vec()));
        let off_obj = build_off_appearance(field.width, field.height);
        self.objects.push(Some(off_obj.as_str().as_bytes_vec()));
        annots.push(n + 1);
        self.acro_refs.push(n + 1);
        self.metadata.fields_processed = self.metadata.fields_processed + 1;
        proof {
            let r = step_button(
                PageAcc {
                    st: old(self)@,
                    content: Seq::empty(),
                    annots: old(annots)@,
                    imgs: Seq::empty(),
                },
                field@,
                pdf_y as int,
                radio,
                glyph@,
                on_state,
            );
            assert(final(self)@ =~~= r.st);
            assert(final(annots)@ =~~= r.annots);
        }
    }

    /// Handles an image or signature source.
    #[verifier::rlimit(100)]
    fn add_image_source(
        &mut self,
        field: &FieldData,
        src: &ImageSource,
        pdf_y: i64,
        content: &mut String,
        imgs: &mut Vec<usize>,
    )
        requires
            field_ok(field@),
            pos_ok(pdf_y as int),
            src@ == match field@.value {
                FieldValueV::ImageV(s) => s,
                FieldValueV::SignatureV(s) => s,
                _ => src@,
            },
            old(self)@.slots.len() <= 2000000000,
            meta_total(old(self)@.meta) <= 400000000,
        ensures
            ({
                let r = step_image(
                    PageAcc {
                        st: old(self)@,
                        content: old(content)@,
                        annots: Seq::empty(),
                        imgs: old(imgs)@,
                    },
                    field@,
                    pdf_y as int,
                    src@,
                );
                final(self)@ == r.st && final(content)@ == r.content && final(imgs)@ == r.imgs
            }),
    {
        let ghost r = step_image(
            PageAcc {
                st: old(self)@,
                content: old(content)@,
                annots: Seq::empty(),
                imgs: old(imgs)@,
            },
            field@,
            pdf_y as int,
            src@,
        );
        match src {
            ImageSource::Remote(_) => {
                let mut msg = String::from_str("Skipped URL image for field ");
                msg.append(field.field_id.as_str());
                self.metadata.warnings.push(msg);
                self.metadata.fields_skipped = self.metadata.fields_skipped + 1;
                proof {
                    assert(self.metadata@.warnings =~= old(self)@.meta.warnings + seq![
                        url_skip_warning(field@.field_id),
                    ]);
                    assert(final(self)@ =~~= r.st);
                }
            },
            ImageSource::Inline(data) => {
                let mode = match field.fit_mode {
                    Some(m) => m,
                    None => ImageFitMode::Contain,
                };
                match self.memo_lookup(&field.field_id) {
                    Some(entry) => {
                        imgs.push(entry.0);
                        render_image(
                            content,
                            entry.0,
                            field.x,
                            pdf_y,
                            field.width,
                            field.height,
                            entry.1,
                            entry.2,
                            mode,
                        );
                        self.metadata.fields_processed = self.metadata.fields_processed + 1;
                        proof {
                            assert(final(self)@ =~~= r.st);
                            assert(final(content)@ =~= r.content);
                            assert(final(imgs)@ =~= r.imgs);
                        }
                    },
                    None => {
                        match decode_image_rgb(data) {
                            None => {
                                let mut msg = String::from_str("Failed to embed image ");
                                msg.append(field.field_id.as_str());
                                self.metadata.errors.push(msg);
                                self.metadata.fields_skipped = self.metadata.fields_skipped + 1;
                                proof {
                                    assert(self.metadata@.errors =~= old(self)@.meta.errors + seq![
                                        embed_error(field@.field_id),
                                    ]);
                                    assert(final(self)@ =~~= r.st);
                                }
                            },
                            Some(decoded) => {
                                let (w_px, h_px, samples) = decoded;
                                let id = self.objects.len() + 1;
                                let obj = build_image_obj(w_px, h_px, &samples);
                                self.objects.push(Some(obj));
                                self.image_refs.push((field.field_id.clone(), id, w_px, h_px));
                                imgs.push(id);
                                render_image(
                                    content,
                                    id,
                                    field.x,
                                    pdf_y,
                                    field.width,
                                    field.height,
                                    w_px,
                                    h_px,
                                    mode,
                                );
                                self.metadata.fields_processed = self.metadata.fields_processed
                                    + 1;
                                proof {
                                    assert(final(self)@ =~~= r.st);
                                    assert(final(content)@ =~= r.content);
                                    assert(final(imgs)@ =~= r.imgs);
                                }
                            },
                        }
                    },
                }
            },
        }
    }
}


impl PdfFieldRenderer {
    /// Handles one referenced page: skips the whole group with a
    /// warning when the template lacks the page, otherwise renders the
    /// group into a new content stream and page object.
    #[verifier::rlimit(100)]
    fn do_page(
        &mut self,
        fields: &Vec<FieldData>,
        p: u32,
        pdf_document: &PdfDocument,
        kids: &mut Vec<usize>,
    )
        requires
            forall|i: int| 0 <= i < fields@.len() ==> field_ok((#[trigger] fields@[i])@),
            forall|i: int| 0 <= i < pdf_document.pages@.len() ==> page_ok(
                #[trigger] pdf_document.pages@[i],
            ),
            fields@.len() <= 100000000,
            old(self)@.slots.len() <= 1000000000,
            meta_total(old(self)@.meta) <= 200000000,
            count_page(fields_view(fields@), 0, p) <= 100000000,
        ensures
            ({
                let r = step_page(
                    old(self)@,
                    old(kids)@,
                    fields_view(fields@),
                    p,
                    pdf_document.pages@,
                );
                final(self)@ == r.0 && final(kids)@ == r.1
            }),
    {
        let ghost fv = fields_view(fields@);
        let ghost pagesv = pdf_document.pages@;
        let cnt = count_fields(fields, p);
        if (p as usize) >= pdf_document.pages.len() {
            let mut msg = String::from_str("Page ");
            crate::numfmt::push_dec(&mut msg, p as u64);
            msg.append(" not found in template");
            self.metadata.warnings.push(msg);
            self.metadata.fields_skipped = self.metadata.fields_skipped + cnt;
            proof {
                assert(self.metadata@.warnings =~= old(self)@.meta.warnings + seq![
                    page_warning(p),
                ]);
                assert(final(self)@ =~~= step_page(old(self)@, old(kids)@, fv, p, pagesv).0);
            }
            return ;
        }
        let info = pdf_document.pages[p as usize];
        self.metadata.pages.push(
            PageMetadata {
                page_number: p,
                width: info.width,
                height: info.height,
                fields_count: cnt,
            },
        );
        let content_idx = self.objects.len();
        self.objects.push(None);
        self.objects.push(None);
        let page_idx = content_idx + 1;
        let ghost st1 = self@;
        proof {
            assert(st1 =~~= RendererV {
                slots: old(self)@.slots + seq![None, None],
                meta: ProcessingMetadataV {
                    pages: old(self)@.meta.pages + seq![
                        PageMetadataV {
                            page_number: p,
                            width: info.width as int,
                            height: info.height as int,
                            fields_count: cnt as nat,
                        },
                    ],
                    ..old(self)@.meta
                },
                ..old(self)@
            });
        }
        let mut content = String::new();
        let mut annots: Vec<usize> = Vec::new();
        let mut imgs: Vec<usize> = Vec::new();
        let ghost acc0 = PageAcc {
            st: st1,
            content: Seq::empty(),
            annots: Seq::empty(),
            imgs: Seq::empty(),
        };
        let ghost iw = info.width as int;
        let ghost ih = info.height as int;
        let mut fj: usize = 0;
        while fj < fields.len()
            invariant
                fj <= fields@.len(),
                fv == fields_view(fields@),
                fields@.len() <= 100000000,
                forall|i: int| 0 <= i < fields@.len() ==> field_ok((#[trigger] fields@[i])@),
                coord_ok(iw),
                coord_ok(ih),
                iw == info.width as int,
                ih == info.height as int,
                fold_fields(
                    fv,
                    fj as int,
                    p,
                    iw,
                    ih,
                    PageAcc { st: self@, content: content@, annots: annots@, imgs: imgs@ },
                ) == fold_fields(fv, 0, p, iw, ih, acc0),
                meta_total(self@.meta) + count_page(fv, fj as int, p) == meta_total(st1.meta)
                    + count_page(fv, 0, p),
                self@.slots.len() + 3 * count_page(fv, fj as int, p) <= st1.slots.len() + 3
                    * count_page(fv, 0, p),
                self@.slots.len() >= st1.slots.len(),
                meta_total(st1.meta) <= 200000000,
                count_page(fv, 0, p) <= 100000000,
                st1.slots.len() <= 1000000000 + 2,
            decreases fields@.len() - fj,
        {
            if fields[fj].page == p {
                proof {
                    lemma_step_field_growth(
                        PageAcc { st: self@, content: content@, annots: annots@, imgs: imgs@ },
                        fv[fj as int],
                        iw,
                        ih,
                    );
                }
                self.process_field(&fields[fj], info.width, info.height, &mut content, &mut annots, &mut imgs);
            }
            fj = fj + 1;
        }
        let ghost accf = fold_fields(fv, 0, p, iw, ih, acc0);
        proof {
            assert(accf =~~= PageAcc {
                st: self@,
                content: content@,
                annots: annots@,
                imgs: imgs@,
            });
        }
        let content_obj = build_content_obj(&content);
        self.objects.set(content_idx, Some(content_obj));
        let page_o = build_page_obj(info.width, info.height, content_idx + 1, &annots, &imgs);
        self.objects.set(page_idx, Some(page_o));
        kids.push(page_idx + 1);
        proof {
            let r = step_page(old(self)@, old(kids)@, fv, p, pagesv);
            assert(final(self)@ =~~= r.0);
            assert(final(kids)@ =~~= r.1);
        }
    }

    /// Fills the font and page-tree slots, appends the catalog, and
    /// serializes the document.
    fn finish_document(self, kids: &Vec<usize>) -> (r: (Vec<u8>, ProcessingMetadata))
        requires
            3 <= self@.slots.len(),
            self@.slots.len() + 1 < usize::MAX,
        ensures
            r.0@ == finish_doc(self@, kids@),
            r.1@ == self@.meta,
    {
        let ghost orig = self@;
        let PdfFieldRenderer { objects, metadata, image_refs: _, acro_refs } = self;
        let mut objects = objects;
        let f1 = build_font_obj("Helvetica");
        objects.set(0, Some(f1));
        let f2 = build_font_obj("ZapfDingbats");
        objects.set(1, Some(f2));
        let tree = build_pages_tree_obj(kids);
        objects.set(2, Some(tree));
        let cat = build_catalog_obj(&acro_refs);
        objects.push(Some(cat));
        let ghost final_slots = slots_view(objects@);
        proof {
            assert(final_slots =~~= orig.slots.update(0, Some(font_obj("Helvetica"@))).update(
                1,
                Some(font_obj("ZapfDingbats"@)),
            ).update(2, Some(pages_tree_obj(kids@))) + seq![Some(catalog_obj(orig.acro))]);
        }
        let n = objects.len();
        let mut objs: Vec<Vec<u8>> = Vec::new();
        let mut i: usize = 0;
        while i < n
            invariant
                i <= n,
                n == objects@.len(),
                slots_view(objects@).len() == final_slots.len(),
                forall|k: int| i <= k < n ==> slots_view(objects@)[k] == final_slots[k],
                objs@.len() == i,
                forall|k: int|
                    0 <= k < i ==> (#[trigger] objs@[k])@ == match final_slots[k] {
                        Some(b) => b,
                        None => Seq::<u8>::empty(),
                    },
            decreases n - i,
        {
            let mut taken: Option<Vec<u8>> = None;
            objects.set_and_swap(i, &mut taken);
            match taken {
                Some(b) => objs.push(b),
                None => objs.push(Vec::new()),
            }
            i = i + 1;
        }
        proof {
            assert(objs@.map_values(|v: Vec<u8>| v@) =~~= final_slots.map_values(
                |o: Option<Seq<u8>>|
                    match o {
                        Some(b) => b,
                        None => Seq::<u8>::empty(),
                    },
            ));
        }
        let bytes = serialize_document(&objs, objs.len());
        proof {
            assert(bytes@ == finish_doc(orig, kids@));
        }
        (bytes, metadata)
    }

    /// Builds the overlay for `fields` against the template's page
    /// list, and returns the overlay bytes with the session metadata.
    ///
    /// The result is exactly [`render_spec`] of the inputs: a pure
    /// function of the field list and page geometry, so identical
    /// inputs always produce byte-identical output.
    #[verifier::rlimit(100)]
    pub fn create_populated_form(self, fields: &Vec<FieldData>, pdf_document: &PdfDocument) -> (r: (
        Vec<u8>,
        ProcessingMetadata,
    ))
        requires
            self@ == renderer_init(),
            forall|i: int| 0 <= i < fields@.len() ==> field_ok((#[trigger] fields@[i])@),
            forall|i: int| 0 <= i < pdf_document.pages@.len() ==> page_ok(
                #[trigger] pdf_document.pages@[i],
            ),
            fields@.len() <= 100000000,
        ensures
            r.0@ == render_spec(fields_view(fields@), pdf_document.pages@).0,
            r.1@ == render_spec(fields_view(fields@), pdf_document.pages@).1,
    {
        let mut this = self;
        let ghost fv = fields_view(fields@);
        let ghost pagesv = pdf_document.pages@;
        this.objects.push(None);
        let ghost st0 = this@;
        proof {
            assert(st0 =~~= RendererV {
                slots: renderer_init().slots + seq![None],
                ..renderer_init()
            });
        }
        let mut plist: Vec<u32> = Vec::new();
        let mut j: usize = 0;
        while j < fields.len()
            invariant
                j <= fields@.len(),
                fv == fields_view(fields@),
                plist@.len() <= j,
                collect_pages(fv, 0, Seq::empty()) == collect_pages(fv, j as int, plist@),
            decreases fields@.len() - j,
        {
            insert_sorted(&mut plist, fields[j].page);
            j = j + 1;
        }
        let ghost plv = plist@;
        proof {
            assert(plv == collect_pages(fv, 0, Seq::empty()));
            lemma_collect_sorted(fv, 0, Seq::empty());
            lemma_sum_bound(fv, 0, plv);
        }
        let mut kids: Vec<usize> = Vec::new();
        let mut pi: usize = 0;
        while pi < plist.len()
            invariant
                pi <= plv.len(),
                plv == plist@,
                plv.len() <= 100000000,
                fv == fields_view(fields@),
                pagesv == pdf_document.pages@,
                fields@.len() <= 100000000,
                forall|i: int| 0 <= i < fields@.len() ==> field_ok((#[trigger] fields@[i])@),
                forall|i: int| 0 <= i < pdf_document.pages@.len() ==> page_ok(
                    #[trigger] pdf_document.pages@[i],
                ),
                fold_pages(plv, pi as int, fv, pagesv, this@, kids@) == fold_pages(
                    plv,
                    0,
                    fv,
                    pagesv,
                    st0,
                    Seq::empty(),
                ),
                meta_total(this@.meta) + sum_counts_from(fv, 0, plv, pi as int)
                    == sum_counts_from(fv, 0, plv, 0),
                sum_counts_from(fv, 0, plv, 0) <= 100000000,
                this@.slots.len() <= 3 + 2 * (pi as int) + 3 * meta_total(this@.meta),
                this@.slots.len() >= 3,
            decreases plv.len() - pi,
        {
            let p = plist[pi];
            proof {
                lemma_step_page_growth(this@, kids@, fv, p, pagesv);
            }
            this.do_page(fields, p, pdf_document, &mut kids);
            pi = pi + 1;
        }
        proof {
            let folded = fold_pages(plv, 0, fv, pagesv, st0, Seq::empty());
            assert(folded == (this@, kids@));
        }
        this.finish_document(&kids)
    }
}


/// A checkbox field always produces both an "on" and an "off"
/// appearance stream object, whatever its boolean value, and its widget
/// dictionary selects the appearance state from the boolean exactly
/// (the `Yes` name for true, `Off` for false, per [`widget_dict`]).
#[verifier::rlimit(100)]
pub proof fn lemma_checkbox_appearances(acc: PageAcc, f: FieldDataV, pw: int, ph: int, b: bool)
    requires
        f.value == FieldValueV::CheckboxV(b),
    ensures
        ({
            let r = step_field(acc, f, pw, ph);
            let n = acc.st.slots.len() as int;
            let pdf_y = ph - f.y - f.height;
            &&& r.st.slots.len() == n + 3
            &&& r.st.slots[n] == Some(
                encode_utf8(
                    widget_dict(
                        f.field_id,
                        false,
                        f.x,
                        pdf_y,
                        f.width,
                        f.height,
                        b,
                        (n + 2) as nat,
                        (n + 3) as nat,
                    ),
                ),
            )
            &&& r.st.slots[n + 1] == Some(
                encode_utf8(on_appearance_obj(f.width, f.height, "4"@)),
            )
            &&& r.st.slots[n + 2] == Some(encode_utf8(off_appearance_obj(f.width, f.height)))
            &&& r.annots == acc.annots + seq![(n + 1) as usize]
        }),
{
}

/// Rendering is deterministic: equal field lists and equal page lists
/// give byte-identical overlay output and identical metadata, in any
/// two sessions.
pub proof fn lemma_render_deterministic(
    fields1: Seq<FieldDataV>,
    fields2: Seq<FieldDataV>,
    pages1: Seq<PdfPageInfo>,
    pages2: Seq<PdfPageInfo>,
)
    requires
        fields1 == fields2,
        pages1 == pages2,
    ensures
        render_spec(fields1, pages1) == render_spec(fields2, pages2),
{
}

/// A group of fields on a page the template lacks is skipped whole: the
/// skip counter grows by the group size, one warning is appended, and
/// the processed counter, the errors, and the page summaries are
/// untouched.
pub proof fn lemma_missing_page_skipped(
    st: RendererV,
    kids: Seq<usize>,
    fields: Seq<FieldDataV>,
    p: u32,
    pages: Seq<PdfPageInfo>,
)
    requires
        p as int >= pages.len(),
    ensures
        ({
            let r = step_page(st, kids, fields, p, pages);
            &&& r.0.meta.fields_skipped == st.meta.fields_skipped + count_page(fields, 0, p)
            &&& r.0.meta.fields_processed == st.meta.fields_processed
            &&& r.0.meta.warnings == st.meta.warnings + seq![page_warning(p)]
            &&& r.0.meta.errors == st.meta.errors
            &&& r.0.meta.pages == st.meta.pages
            &&& r.0.slots == st.slots
            &&& r.1 == kids
        }),
{
}


/// Warnings only grow across one field step.
proof fn lemma_step_field_warnings(acc: PageAcc, f: FieldDataV, pw: int, ph: int)
    ensures
        acc.st.meta.warnings.is_prefix_of(step_field(acc, f, pw, ph).st.meta.warnings),
{
    let pdf_y = ph - f.y - f.height;
    let r = step_field(acc, f, pw, ph);
    match f.value {
        FieldValueV::ImageV(src) => lemma_step_image_warnings(acc, f, pdf_y, src),
        FieldValueV::SignatureV(src) => lemma_step_image_warnings(acc, f, pdf_y, src),
        _ => {
            assert(r.st.meta.warnings == acc.st.meta.warnings);
            assert(acc.st.meta.warnings.is_prefix_of(acc.st.meta.warnings));
        },
    }
}

/// Warnings only grow across the image arm of a field step.
proof fn lemma_step_image_warnings(acc: PageAcc, f: FieldDataV, pdf_y: int, src: ImageSourceV)
    ensures
        acc.st.meta.warnings.is_prefix_of(step_image(acc, f, pdf_y, src).st.meta.warnings),
{
    let r = step_image(acc, f, pdf_y, src);
    match src {
        ImageSourceV::RemoteV(_) => {
            assert(r.st.meta.warnings == acc.st.meta.warnings + seq![url_skip_warning(f.field_id)]);
            assert(acc.st.meta.warnings =~= r.st.meta.warnings.subrange(
                0,
                acc.st.meta.warnings.len() as int,
            ));
        },
        ImageSourceV::InlineV(data) => {
            assert(r.st.meta.warnings == acc.st.meta.warnings);
            assert(acc.st.meta.warnings.is_prefix_of(acc.st.meta.warnings));
        },
    }
}

/// Warnings only grow across a page's field fold.
proof fn lemma_fold_fields_warnings(
    fields: Seq<FieldDataV>,
    j: int,
    p: u32,
    pw: int,
    ph: int,
    acc: PageAcc,
)
    ensures
        acc.st.meta.warnings.is_prefix_of(fold_fields(fields, j, p, pw, ph, acc).st.meta.warnings),
    decreases fields.len() - j,
{
    if j < 0 || j >= fields.len() {
        assert(acc.st.meta.warnings.is_prefix_of(acc.st.meta.warnings));
    } else if fields[j].page == p {
        lemma_step_field_warnings(acc, fields[j], pw, ph);
        let mid = step_field(acc, fields[j], pw, ph);
        lemma_fold_fields_warnings(fields, j + 1, p, pw, ph, mid);
        let fin = fold_fields(fields, j + 1, p, pw, ph, mid);
        assert(acc.st.meta.warnings =~= fin.st.meta.warnings.subrange(
            0,
            acc.st.meta.warnings.len() as int,
        ));
    } else {
        lemma_fold_fields_warnings(fields, j + 1, p, pw, ph, acc);
    }
}

/// Warnings only grow across a page step.
proof fn lemma_step_page_warnings(
    st: RendererV,
    kids: Seq<usize>,
    fields: Seq<FieldDataV>,
    p: u32,
    pages: Seq<PdfPageInfo>,
)
    ensures
        st.meta.warnings.is_prefix_of(step_page(st, kids, fields, p, pages).0.meta.warnings),
{
    let r = step_page(st, kids, fields, p, pages);
    if p as int >= pages.len() {
        assert(st.meta.warnings =~= r.0.meta.warnings.subrange(0, st.meta.warnings.len() as int));
    } else {
        let info = pages[p as int];
        let cnt = count_page(fields, 0, p);
        let st1 = RendererV {
            slots: st.slots + seq![None, None],
            meta: ProcessingMetadataV {
                pages: st.meta.pages + seq![
                    PageMetadataV {
                        page_number: p,
                        width: info.width as int,
                        height: info.height as int,
                        fields_count: cnt,
                    },
                ],
                ..st.meta
            },
            ..st
        };
        lemma_fold_fields_warnings(
            fields,
            0,
            p,
            info.width as int,
            info.height as int,
            PageAcc { st: st1, content: Seq::empty(), annots: Seq::empty(), imgs: Seq::empty() },
        );
    }
}

/// Warnings only grow across the page fold.
proof fn lemma_fold_pages_warnings(
    plv: Seq<u32>,
    i: int,
    fields: Seq<FieldDataV>,
    pages: Seq<PdfPageInfo>,
    st: RendererV,
    kids: Seq<usize>,
)
    ensures
        st.meta.warnings.is_prefix_of(
            fold_pages(plv, i, fields, pages, st, kids).0.meta.warnings,
        ),
    decreases plv.len() - i,
{
    if i < 0 || i >= plv.len() {
        assert(st.meta.warnings.is_prefix_of(st.meta.warnings));
    } else {
        lemma_step_page_warnings(st, kids, fields, plv[i], pages);
        let next = step_page(st, kids, fields, plv[i], pages);
        lemma_fold_pages_warnings(plv, i + 1, fields, pages, next.0, next.1);
        let fin = fold_pages(plv, i + 1, fields, pages, next.0, next.1);
        assert(st.meta.warnings =~= fin.0.meta.warnings.subrange(
            0,
            st.meta.warnings.len() as int,
        ));
    }
}

/// If a referenced missing page occurs in `plv[i..]`, the fold's
/// warnings contain its warning.
#[verifier::rlimit(100)]
proof fn lemma_fold_pages_missing_warned(
    plv: Seq<u32>,
    i: int,
    fields: Seq<FieldDataV>,
    pages: Seq<PdfPageInfo>,
    st: RendererV,
    kids: Seq<usize>,
    p: u32,
)
    requires
        0 <= i,
        p as int >= pages.len(),
        exists|k: int| i <= k < plv.len() && plv[k] == p,
    ensures
        fold_pages(plv, i, fields, pages, st, kids).0.meta.warnings.contains(page_warning(p)),
    decreases plv.len() - i,
{
    let k = choose|k: int| i <= k < plv.len() && plv[k] == p;
    let next = step_page(st, kids, fields, plv[i], pages);
    if plv[i] == p {
        lemma_missing_page_skipped(st, kids, fields, p, pages);
        assert(next.0.meta.warnings == st.meta.warnings + seq![page_warning(p)]);
        let w = next.0.meta.warnings;
        let idx = w.len() - 1;
        assert(w[idx] == page_warning(p));
        lemma_fold_pages_warnings(plv, i + 1, fields, pages, next.0, next.1);
        let fin = fold_pages(plv, i + 1, fields, pages, next.0, next.1).0.meta.warnings;
        assert(w.is_prefix_of(fin));
        assert(w =~= fin.subrange(0, w.len() as int));
        assert(fin[idx] == fin.subrange(0, w.len() as int)[idx]);
        assert(fin[idx] == page_warning(p));
        assert(fin.contains(page_warning(p)));
        assert(fold_pages(plv, i, fields, pages, st, kids).0.meta.warnings == fin);
    } else {
        assert(i + 1 <= k < plv.len() && plv[k] == p);
        lemma_fold_pages_missing_warned(plv, i + 1, fields, pages, next.0, next.1, p);
    }
}

/// Inserting `p` makes it a member, and keeps the old members.
proof fn lemma_collect_preserves(fields: Seq<FieldDataV>, j: int, acc: Seq<u32>, v: u32)
    requires
        acc.contains(v),
    ensures
        collect_pages(fields, j, acc).contains(v),
    decreases fields.len() - j,
{
    if j < 0 || j >= fields.len() {
    } else {
        lemma_insert_contains(acc, fields[j].page, v);
        lemma_collect_preserves(fields, j + 1, insert_page(acc, fields[j].page), v);
    }
}

/// Every referenced page ends up in the collected list.
proof fn lemma_collect_has(fields: Seq<FieldDataV>, j: int, acc: Seq<u32>, k: int)
    requires
        j <= k < fields.len(),
        0 <= j,
    ensures
        collect_pages(fields, j, acc).contains(fields[k].page),
    decreases fields.len() - j,
{
    let ins = insert_page(acc, fields[j].page);
    if k == j {
        lemma_insert_contains(acc, fields[j].page, fields[j].page);
        lemma_collect_preserves(fields, j + 1, ins, fields[j].page);
    } else {
        lemma_collect_has(fields, j + 1, ins, k);
    }
}

/// A field on a page the template lacks is skipped with a warning and
/// never processed: the finished metadata carries that page's warning.
pub proof fn lemma_missing_page_warned(fields: Seq<FieldDataV>, pages: Seq<PdfPageInfo>, k: int)
    requires
        0 <= k < fields.len(),
        fields[k].page as int >= pages.len(),
    ensures
        render_spec(fields, pages).1.warnings.contains(page_warning(fields[k].page)),
{
    let st0 = RendererV { slots: renderer_init().slots + seq![None], ..renderer_init() };
    let plv = collect_pages(fields, 0, Seq::empty());
    lemma_collect_has(fields, 0, Seq::empty(), k);
    let p = fields[k].page;
    assert(exists|i: int| 0 <= i < plv.len() && plv[i] == p);
    lemma_fold_pages_missing_warned(plv, 0, fields, pages, st0, Seq::empty(), p);
}

/// The total over one page fold.
proof fn lemma_fold_pages_total(
    plv: Seq<u32>,
    i: int,
    fields: Seq<FieldDataV>,
    pages: Seq<PdfPageInfo>,
    st: RendererV,
    kids: Seq<usize>,
)
    ensures
        meta_total(fold_pages(plv, i, fields, pages, st, kids).0.meta) == meta_total(st.meta)
            + sum_counts_from(fields, 0, plv, i),
    decreases plv.len() - i,
{
    if i < 0 || i >= plv.len() {
    } else {
        lemma_step_page_growth(st, kids, fields, plv[i], pages);
        let next = step_page(st, kids, fields, plv[i], pages);
        lemma_fold_pages_total(plv, i + 1, fields, pages, next.0, next.1);
    }
}

/// A member occurs at least once.
proof fn lemma_contains_occ(pl: Seq<u32>, i: int, v: u32)
    requires
        exists|k: int| i <= k < pl.len() && pl[k] == v,
        0 <= i,
    ensures
        occ(pl, i, v) >= 1,
    decreases pl.len() - i,
{
    let k = choose|k: int| i <= k < pl.len() && pl[k] == v;
    if pl[i] == v {
    } else {
        assert(i + 1 <= k < pl.len() && pl[k] == v);
        lemma_contains_occ(pl, i + 1, v);
    }
}

/// Over a strictly ascending list containing every referenced page, the
/// group sizes sum to exactly the number of fields.
proof fn lemma_sum_exact(fields: Seq<FieldDataV>, j: int, pl: Seq<u32>)
    requires
        strictly_sorted(pl),
        0 <= j <= fields.len(),
        forall|k: int| 0 <= k < fields.len() ==> pl.contains(#[trigger] fields[k].page),
    ensures
        sum_counts_from(fields, j, pl, 0) == fields.len() - j,
    decreases fields.len() - j,
{
    if j >= fields.len() {
        lemma_sum_empty(fields, j, pl, 0);
    } else {
        lemma_sum_unfold(fields, j, pl, 0);
        lemma_occ_le_one(pl, 0, fields[j].page);
        assert(pl.contains(fields[j].page));
        lemma_contains_occ(pl, 0, fields[j].page);
        lemma_sum_exact(fields, j + 1, pl);
    }
}

/// Every field is counted exactly once: the processed and skipped
/// counters of a finished render sum to the number of fields given.
pub proof fn lemma_fields_accounted(fields: Seq<FieldDataV>, pages: Seq<PdfPageInfo>)
    ensures
        render_spec(fields, pages).1.fields_processed + render_spec(
            fields,
            pages,
        ).1.fields_skipped == fields.len(),
{
    let st0 = RendererV { slots: renderer_init().slots + seq![None], ..renderer_init() };
    let plv = collect_pages(fields, 0, Seq::empty());
    lemma_collect_sorted(fields, 0, Seq::empty());
    assert forall|k: int| 0 <= k < fields.len() implies plv.contains(
        #[trigger] fields[k].page,
    ) by {
        lemma_collect_has(fields, 0, Seq::empty(), k);
    }
    lemma_sum_exact(fields, 0, plv);
    lemma_fold_pages_total(plv, 0, fields, pages, st0, Seq::empty());
}

} // verus!
