//! The rendered frame: a `tiny_skia` pixmap (re-exported by `resvg`), and the
//! alpha lookup under the cursor that decides whether a point is hit.

use vstd::prelude::*;
use resvg::tiny_skia::Pixmap;

verus! {

#[verifier::external_type_specification]
#[verifier::external_body]
pub struct ExPixmap(resvg::tiny_skia::Pixmap);

/// The premultiplied RGBA bytes held by a pixmap, row after row.
pub uninterp spec fn pixmap_data(p: Pixmap) -> Seq<u8>;

/// The `(width, height)` a pixmap was made with.
pub uninterp spec fn pixmap_size(p: Pixmap) -> (u32, u32);

/// Width of a pixmap in pixels.
pub open spec fn width_of(p: Pixmap) -> int {
    pixmap_size(p).0 as int
}

/// Height of a pixmap in pixels.
pub open spec fn height_of(p: Pixmap) -> int {
    pixmap_size(p).1 as int
}

/// Alpha byte of pixel `idx` (row-major) of an RGBA byte sequence.
pub open spec fn alpha_byte(data: Seq<u8>, idx: int) -> u8 {
    data[4 * idx + 3]
}

/// `Pixmap::width`. A pixmap is never empty, and tiny-skia refuses to make
/// one whose row takes more than `i32::MAX` bytes.
#[verifier::external_body]
pub(crate) fn pixmap_width(p: &Pixmap) -> (w: u32)
    ensures
        w == pixmap_size(*p).0,
        0 < w,
        4 * w <= i32::MAX,
{
    p.width()
}

/// `Pixmap::height`. A pixmap is never empty.
#[verifier::external_body]
pub(crate) fn pixmap_height(p: &Pixmap) -> (h: u32)
    ensures
        h == pixmap_size(*p).1,
        0 < h,
{
    p.height()
}

/// `Pixmap::data`: the RGBA bytes, four per pixel. tiny-skia makes every
/// pixmap with room for at least `width * height` pixels (exactly that many,
/// unless it copies a longer borrowed buffer).
#[verifier::external_body]
pub(crate) fn pixmap_bytes(p: &Pixmap) -> (data: &[u8])
    ensures
        data@ == pixmap_data(*p),
        data@.len() >= 4 * (pixmap_size(*p).0 as int) * (pixmap_size(*p).1 as int),
{
    p.data()
}

/// What tiny-skia's `Pixmap::pixel` finds for `(x, y)`: it computes the index
/// `width * y + x` with checked `u32` arithmetic and looks it up among the
/// `width * height` pixels, without comparing `x` to the width.
pub open spec fn pixel_alpha(p: Pixmap, x: u32, y: u32) -> Option<u8> {
    let idx = width_of(p) * (y as int) + (x as int);
    if idx <= u32::MAX && 4 * idx < pixmap_data(p).len() {
        Some(alpha_byte(pixmap_data(p), idx))
    } else {
        None
    }
}

/// `Pixmap::pixel`, with the alpha byte taken out of the colour it returns.
/// It views the bytes as pixels with `bytemuck::cast_slice`, which panics
/// unless their number is a multiple of four.
#[verifier::external_body]
pub(crate) fn pixmap_alpha(p: &Pixmap, x: u32, y: u32) -> (a: Option<u8>)
    requires
        pixmap_data(*p).len() % 4 == 0,
    ensures
        a == pixel_alpha(*p, x, y),
{
    p.pixel(x, y).map(|c| c.alpha())
}

/// What `alpha_at` answers for the point `(x, y)`: transparent outside the
/// pixmap (or without one), else the alpha of the pixel there, as far as
/// tiny-skia's `u32` pixel index reaches.
pub open spec fn alpha_at_spec(p: Option<Pixmap>, x: int, y: int) -> u8 {
    match p {
        None => 0,
        Some(p) => {
            let idx = width_of(p) * y + x;
            if x < 0 || y < 0 || x >= width_of(p) || y >= height_of(p) || idx > u32::MAX {
                0
            } else {
                alpha_byte(pixmap_data(p), idx)
            }
        },
    }
}

proof fn lemma_index_in_frame(w: int, h: int, x: int, y: int)
    requires
        0 <= x < w,
        0 <= y < h,
    ensures
        w * y + x < w * h,
        0 <= w * y,
{
    assert(w * y + x < w * h) by (nonlinear_arith)
        requires 0 <= x < w, 0 <= y < h;
    assert(0 <= w * y) by (nonlinear_arith)
        requires 0 <= x < w, 0 <= y;
}

/// The point `(x, y)` lies inside pixmap `p`.
pub open spec fn inside(p: Pixmap, x: int, y: int) -> bool {
    0 <= x < width_of(p) && 0 <= y < height_of(p)
}

/// Alpha of the frame at the point `(x, y)` in physical pixels, `0` where
/// there is no frame or the point lies outside it. The caller rounds a
/// fractional cursor position down (`f64::floor`, then a saturating cast).
/// The pixel is read as tiny-skia reads it, which takes a whole number of
/// pixels.
pub fn alpha_at(p: Option<&Pixmap>, x: i64, y: i64) -> (a: u8)
    requires
        match p {
            Some(q) => inside(*q, x as int, y as int) ==> pixmap_data(*q).len() % 4 == 0,
            None => true,
        },
    ensures
        a == alpha_at_spec(
            match p {
                Some(q) => Some(*q),
                None => None,
            },
            x as int,
            y as int,
        ),
{
    match p {
        None => 0,
        Some(q) => {
            let w = pixmap_width(q);
            let h = pixmap_height(q);
            if x < 0 || y < 0 || x >= w as i64 || y >= h as i64 {
                0
            } else {
                let data = pixmap_bytes(q);
                proof {
                    lemma_index_in_frame(w as int, h as int, x as int, y as int);
                    assert(4 * (w as int) * (h as int) == 4 * ((w as int) * (h as int)))
                        by (nonlinear_arith);
                }
                match pixmap_alpha(q, x as u32, y as u32) {
                    Some(v) => v,
                    None => 0,
                }
            }
        },
    }
}

/// Whether pixmap `p` already has the window's inner size `(w, h)`, so the
/// frame can be drawn into it rather than into a new one.
pub fn frame_fits(p: &Pixmap, w: u32, h: u32) -> (fits: bool)
    ensures
        fits == (pixmap_size(*p) == (w, h)),
{
    pixmap_width(p) == w && pixmap_height(p) == h
}

/// Whether the pixmap's bytes make a whole number of pixels (four bytes
/// each), as reading a pixel needs.
pub fn whole_pixels(p: &Pixmap) -> (whole: bool)
    ensures
        whole == (pixmap_data(*p).len() % 4 == 0),
{
    pixmap_bytes(p).len() % 4 == 0
}

/// Rows of the pixmap's width that its bytes hold in full.
pub open spec fn rows_of(p: Pixmap) -> int {
    (pixmap_data(p).len() as int) / (4 * (pixmap_size(p).0 as int))
}

/// How many whole rows of its width the pixmap's bytes hold.
pub fn whole_rows(p: &Pixmap) -> (rows: usize)
    ensures
        rows == rows_of(*p),
{
    let w = pixmap_width(p);
    pixmap_bytes(p).len() / (w as usize * 4)
}


/// What the cursor reads: nothing without a frame; nothing at a point outside
/// the frame (left of it, above it, right of it or below it); inside, the
/// alpha byte of the pixel at that row and column, as far as tiny-skia's
/// `u32` pixel index reaches.
pub proof fn alpha_at_answers(p: Pixmap, x: int, y: int)
    ensures
        alpha_at_spec(None, x, y) == 0,
        x < 0 ==> alpha_at_spec(Some(p), x, y) == 0,
        y < 0 ==> alpha_at_spec(Some(p), x, y) == 0,
        x >= pixmap_size(p).0 ==> alpha_at_spec(Some(p), x, y) == 0,
        y >= pixmap_size(p).1 ==> alpha_at_spec(Some(p), x, y) == 0,
        !inside(p, x, y) ==> alpha_at_spec(Some(p), x, y) == 0,
        inside(p, x, y) && (pixmap_size(p).0 as int) * y + x <= u32::MAX ==> alpha_at_spec(Some(p), x, y)
            == pixmap_data(p)[4 * ((pixmap_size(p).0 as int) * y + x) + 3],
{
}

/// The whole rows of a pixmap: as many rows of its width as its bytes hold,
/// and no more.
pub proof fn whole_rows_answers(p: Pixmap)
    requires
        0 < pixmap_size(p).0,
    ensures
        0 <= rows_of(p),
        rows_of(p) * (4 * (pixmap_size(p).0 as int)) <= pixmap_data(p).len(),
        pixmap_data(p).len() < (rows_of(p) + 1) * (4 * (pixmap_size(p).0 as int)),
{
    let len = pixmap_data(p).len() as int;
    let rb = 4 * (pixmap_size(p).0 as int);
    vstd::arithmetic::div_mod::lemma_fundamental_div_mod(len, rb);
    vstd::arithmetic::div_mod::lemma_mod_pos_bound(len, rb);
    vstd::arithmetic::div_mod::lemma_div_pos_is_pos(len, rb);
    assert(rows_of(p) * rb == rb * rows_of(p)) by (nonlinear_arith);
    assert((rows_of(p) + 1) * rb == rb * rows_of(p) + rb) by (nonlinear_arith);
}

} // verus!
