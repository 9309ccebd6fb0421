//! Image embedder: decoding, placement geometry, and draw operators.
//!
//! An inline image payload is decoded to 8-bit RGB samples through the
//! `image` crate. Placement inside the field box follows the field's fit
//! mode; all geometry is integer milli-point arithmetic, with natural
//! image dimensions scaled from pixels at one point per pixel.

use vstd::prelude::*;
use crate::ops::{
    op_draw_image, op_restore_state, op_save_state, op_transform, push_draw_image,
    push_restore_state, push_save_state, push_transform,
};
use crate::layout::{coord_ok_i64, pos_ok};
use crate::types::ImageFitMode;

verus! {

/// The 8-bit RGB decoding of an image payload: `None` when the bytes are
/// not a decodable image, otherwise the pixel width, pixel height, and
/// the row-major RGB samples. The decoding is a function of the bytes
/// alone.
pub uninterp spec fn rgb_decode_of(data: Seq<u8>) -> Option<(u32, u32, Seq<u8>)>;

/// Decodes an image payload to 8-bit RGB samples.
///
/// Relies on `image::load_from_memory`, which decodes from an in-memory
/// buffer with a guessed format, and on `DynamicImage::to_rgb8` /
/// `ImageBuffer::into_raw`, whose raw buffer holds exactly
/// `width * height * 3` samples.
#[verifier::external_body]
pub(crate) fn decode_image_rgb(data: &Vec<u8>) -> (r: Option<(u32, u32, Vec<u8>)>)
    ensures
        r matches Some(t) ==> rgb_decode_of(data@) == Some((t.0, t.1, t.2@)),
        r is None ==> rgb_decode_of(data@) is None,
        r matches Some(t) ==> t.2@.len() == 3 * (t.0 as nat) * (t.1 as nat),
{
    match image::load_from_memory(data.as_slice()) {
        Ok(img) => {
            let rgb = img.to_rgb8();
            let (w, h) = rgb.dimensions();
            Some((w, h, rgb.into_raw()))
        },
        Err(_) => None,
    }
}

/// Truncating division (toward zero), matching machine division.
pub open spec fn div_trunc(n: int, d: int) -> int
    recommends
        d > 0,
{
    if n >= 0 {
        n / d
    } else {
        -((-n) / d)
    }
}

/// Rendered width, height, and centering offsets for an image of natural
/// size `iw × ih` placed in a box `bw × bh` under `mode`. All values in
/// milli-points. An image with a non-positive natural dimension is
/// placed as `Fill`.
pub open spec fn fit_dims(mode: ImageFitMode, bw: int, bh: int, iw: int, ih: int) -> (
    int,
    int,
    int,
    int,
) {
    if iw <= 0 || ih <= 0 {
        (bw, bh, 0, 0)
    } else {
        match mode {
            ImageFitMode::Fill => (bw, bh, 0, 0),
            ImageFitMode::Contain => contain_dims(bw, bh, iw, ih),
            ImageFitMode::Cover => {
                let (w, h) = if bw * ih >= bh * iw {
                    (bw, div_trunc(ih * bw, iw))
                } else {
                    (div_trunc(iw * bh, ih), bh)
                };
                (w, h, div_trunc(bw - w, 2), div_trunc(bh - h, 2))
            },
            ImageFitMode::ScaleDown => {
                if iw <= bw && ih <= bh {
                    (iw, ih, div_trunc(bw - iw, 2), div_trunc(bh - ih, 2))
                } else {
                    contain_dims(bw, bh, iw, ih)
                }
            },
        }
    }
}

/// The `Contain` placement: scale by the smaller of the two box/image
/// ratios, then center.
pub open spec fn contain_dims(bw: int, bh: int, iw: int, ih: int) -> (int, int, int, int)
    recommends
        iw > 0,
        ih > 0,
{
    let (w, h) = if bw * ih <= bh * iw {
        (bw, div_trunc(ih * bw, iw))
    } else {
        (div_trunc(iw * bh, ih), bh)
    };
    (w, h, div_trunc(bw - w, 2), div_trunc(bh - h, 2))
}

/// Largest magnitude of a natural image dimension in milli-points
/// (`u32::MAX` pixels at 1000 milli-points per pixel).
pub const IMG_DIM_LIMIT: i64 = 4294967295000;

/// Largest magnitude of a rendered image dimension or offset:
/// `IMG_DIM_LIMIT` scaled by the worst-case box/denominator ratio.
pub const RENDER_DIM_LIMIT: i64 = 4294967295000000000;

/// Computes `div_trunc(a * b, d)`.
fn mul_div(a: i64, b: i64, d: i64) -> (r: i64)
    requires
        1000 <= d,
        -IMG_DIM_LIMIT <= a <= IMG_DIM_LIMIT,
        -1000000000 <= b <= 1000000000,
    ensures
        r as int == div_trunc(a as int * b as int, d as int),
        -RENDER_DIM_LIMIT <= r <= RENDER_DIM_LIMIT,
{
    proof {
        assert(-4294967295000 * 1000000000 <= a as int * b as int <= 4294967295000 * 1000000000)
            by (nonlinear_arith)
            requires
                -4294967295000 <= a as int <= 4294967295000,
                -1000000000 <= b as int <= 1000000000,
        ;
        let p = a as int * b as int;
        let m: int = (4294967295000int) * 1000000000;
        if p >= 0 {
            vstd::arithmetic::div_mod::lemma_div_is_ordered_by_denominator(p, 1000, d as int);
            vstd::arithmetic::div_mod::lemma_div_is_ordered(p, m, 1000);
            assert(p / (d as int) <= RENDER_DIM_LIMIT as int);
            vstd::arithmetic::div_mod::lemma_div_pos_is_pos(p, d as int);
        } else {
            vstd::arithmetic::div_mod::lemma_div_is_ordered_by_denominator(-p, 1000, d as int);
            vstd::arithmetic::div_mod::lemma_div_is_ordered(-p, m, 1000);
            assert((-p) / (d as int) <= RENDER_DIM_LIMIT as int);
            vstd::arithmetic::div_mod::lemma_div_pos_is_pos(-p, d as int);
        }
    }
    let p: i128 = (a as i128) * (b as i128);
    if p < 0 {
        let q: u128 = ((-p) as u128) / (d as u128);
        -((q as i128) as i64)
    } else {
        let q: u128 = (p as u128) / (d as u128);
        (q as i128) as i64
    }
}

/// Computes `div_trunc(v, 2)`.
fn half_trunc(v: i64) -> (r: i64)
    requires
        v > i64::MIN,
    ensures
        r as int == div_trunc(v as int, 2),
{
    if v < 0 {
        -((((-v) as u64) / 2) as i64)
    } else {
        ((v as u64) / 2) as i64
    }
}

/// Computes the placement of an image in a field box.
fn fit_dims_exec(mode: ImageFitMode, bw: i64, bh: i64, iw: i64, ih: i64) -> (r: (
    i64,
    i64,
    i64,
    i64,
))
    requires
        coord_ok_i64(bw),
        coord_ok_i64(bh),
        iw == 0 || 1000 <= iw <= IMG_DIM_LIMIT,
        ih == 0 || 1000 <= ih <= IMG_DIM_LIMIT,
    ensures
        (r.0 as int, r.1 as int, r.2 as int, r.3 as int) == fit_dims(
            mode,
            bw as int,
            bh as int,
            iw as int,
            ih as int,
        ),
        -RENDER_DIM_LIMIT <= r.0 <= RENDER_DIM_LIMIT,
        -RENDER_DIM_LIMIT <= r.1 <= RENDER_DIM_LIMIT,
        -RENDER_DIM_LIMIT <= r.2 <= RENDER_DIM_LIMIT,
        -RENDER_DIM_LIMIT <= r.3 <= RENDER_DIM_LIMIT,
{
    if iw <= 0 || ih <= 0 {
        return (bw, bh, 0, 0);
    }
    match mode {
        ImageFitMode::Fill => (bw, bh, 0, 0),
        ImageFitMode::Contain => contain_exec(bw, bh, iw, ih),
        ImageFitMode::Cover => {
            proof {
                lemma_box_products(bw as int, bh as int, iw as int, ih as int);
            }
            let lhs: i128 = (bw as i128) * (ih as i128);
            let rhs: i128 = (bh as i128) * (iw as i128);
            let (w, h): (i64, i64) = if lhs >= rhs {
                (bw, mul_div(ih, bw, iw))
            } else {
                (mul_div(iw, bh, ih), bh)
            };
            (w, h, half_trunc(bw - w), half_trunc(bh - h))
        },
        ImageFitMode::ScaleDown => {
            if iw <= bw && ih <= bh {
                (iw, ih, half_trunc(bw - iw), half_trunc(bh - ih))
            } else {
                contain_exec(bw, bh, iw, ih)
            }
        },
    }
}

/// Bounds on the cross products used to compare the two box/image ratios.
proof fn lemma_box_products(bw: int, bh: int, iw: int, ih: int)
    requires
        -1000000000 <= bw <= 1000000000,
        -1000000000 <= bh <= 1000000000,
        0 < iw <= IMG_DIM_LIMIT as int,
        0 < ih <= IMG_DIM_LIMIT as int,
    ensures
        -1000000000 * (IMG_DIM_LIMIT as int) <= bw * ih <= 1000000000 * (IMG_DIM_LIMIT as int),
        -1000000000 * (IMG_DIM_LIMIT as int) <= bh * iw <= 1000000000 * (IMG_DIM_LIMIT as int),
{
    assert(-1000000000 * (IMG_DIM_LIMIT as int) <= bw * ih <= 1000000000 * (IMG_DIM_LIMIT
        as int)) by (nonlinear_arith)
        requires
            -1000000000 <= bw <= 1000000000,
            0 < ih <= IMG_DIM_LIMIT as int,
    ;
    assert(-1000000000 * (IMG_DIM_LIMIT as int) <= bh * iw <= 1000000000 * (IMG_DIM_LIMIT
        as int)) by (nonlinear_arith)
        requires
            -1000000000 <= bh <= 1000000000,
            0 < iw <= IMG_DIM_LIMIT as int,
    ;
}

/// Computes the `Contain` placement.
fn contain_exec(bw: i64, bh: i64, iw: i64, ih: i64) -> (r: (i64, i64, i64, i64))
    requires
        coord_ok_i64(bw),
        coord_ok_i64(bh),
        1000 <= iw <= IMG_DIM_LIMIT,
        1000 <= ih <= IMG_DIM_LIMIT,
    ensures
        (r.0 as int, r.1 as int, r.2 as int, r.3 as int) == contain_dims(
            bw as int,
            bh as int,
            iw as int,
            ih as int,
        ),
        -RENDER_DIM_LIMIT <= r.0 <= RENDER_DIM_LIMIT,
        -RENDER_DIM_LIMIT <= r.1 <= RENDER_DIM_LIMIT,
        -RENDER_DIM_LIMIT <= r.2 <= RENDER_DIM_LIMIT,
        -RENDER_DIM_LIMIT <= r.3 <= RENDER_DIM_LIMIT,
{
    proof {
        lemma_box_products(bw as int, bh as int, iw as int, ih as int);
    }
    let lhs: i128 = (bw as i128) * (ih as i128);
    let rhs: i128 = (bh as i128) * (iw as i128);
    let (w, h): (i64, i64) = if lhs <= rhs {
        (bw, mul_div(ih, bw, iw))
    } else {
        (mul_div(iw, bh, ih), bh)
    };
    (w, h, half_trunc(bw - w), half_trunc(bh - h))
}

/// The draw operators for an embedded image: a state save, the placement
/// transform, the XObject paint, and a state restore.
pub open spec fn image_ops(
    id: nat,
    x: int,
    pdf_y: int,
    bw: int,
    bh: int,
    iw_px: u32,
    ih_px: u32,
    mode: ImageFitMode,
) -> Seq<char> {
    let dims = fit_dims(mode, bw, bh, iw_px * 1000, ih_px * 1000);
    op_save_state() + op_transform(dims.0, dims.1, x + dims.2, pdf_y + dims.3) + op_draw_image(id)
        + op_restore_state()
}

/// Appends the draw operators for an embedded image to `content`.
pub fn render_image(
    content: &mut String,
    id: usize,
    x: i64,
    pdf_y: i64,
    bw: i64,
    bh: i64,
    iw_px: u32,
    ih_px: u32,
    mode: ImageFitMode,
)
    requires
        coord_ok_i64(x),
        pos_ok(pdf_y as int),
        coord_ok_i64(bw),
        coord_ok_i64(bh),
    ensures
        final(content)@ == old(content)@ + image_ops(
            id as nat,
            x as int,
            pdf_y as int,
            bw as int,
            bh as int,
            iw_px,
            ih_px,
            mode,
        ),
{
    let iw: i64 = (iw_px as i64) * 1000;
    let ih: i64 = (ih_px as i64) * 1000;
    let dims = fit_dims_exec(mode, bw, bh, iw, ih);
    push_save_state(content);
    push_transform(content, dims.0, dims.1, x + dims.2, pdf_y + dims.3);
    push_draw_image(content, id);
    push_restore_state(content);
    proof {
        assert(final(content)@ =~= old(content)@ + image_ops(
            id as nat,
            x as int,
            pdf_y as int,
            bw as int,
            bh as int,
            iw_px,
            ih_px,
            mode,
        ));
    }
}


/// For `Contain` the rendered size is the natural size scaled by the
/// smaller box/image ratio, and for `Cover` by the larger: writing the
/// chosen ratio as the exact fraction `s_num / s_den`, the rendered
/// width and height are `iw · s` and `ih · s` (truncated). The smaller
/// ratio is `bw / iw` exactly when `bw · ih ≤ bh · iw`.
pub proof fn lemma_contain_cover_scale(bw: int, bh: int, iw: int, ih: int)
    requires
        iw > 0,
        ih > 0,
    ensures
        ({
            let s = if bw * ih <= bh * iw {
                (bw, iw)
            } else {
                (bh, ih)
            };
            let d = fit_dims(ImageFitMode::Contain, bw, bh, iw, ih);
            d.0 == div_trunc(iw * s.0, s.1) && d.1 == div_trunc(ih * s.0, s.1)
        }),
        ({
            let s = if bw * ih >= bh * iw {
                (bw, iw)
            } else {
                (bh, ih)
            };
            let d = fit_dims(ImageFitMode::Cover, bw, bh, iw, ih);
            d.0 == div_trunc(iw * s.0, s.1) && d.1 == div_trunc(ih * s.0, s.1)
        }),
{
    assert(div_trunc(iw * bw, iw) == bw) by (nonlinear_arith)
        requires
            iw > 0,
    ;
    assert(div_trunc(iw * bh, ih) == div_trunc(iw * bh, ih));
    assert(div_trunc(ih * bh, ih) == bh) by (nonlinear_arith)
        requires
            ih > 0,
    ;
}

} // verus!
