//! Pixel work done on each frame before it reaches the window system: the
//! RGBA to BGRA swizzle, the cutting of an image into request-sized strips,
//! and the input-shape mask (one rectangle per run of visible pixels).

use vstd::prelude::*;
use crate::pixmap::{alpha_byte, pixmap_data, pixmap_size, pixmap_width, pixmap_bytes, rows_of};
use resvg::tiny_skia::Pixmap;

verus! {

/// Bytes of pixel `i` (four bytes per pixel) of a byte sequence.
pub open spec fn pixel_of(s: Seq<u8>, i: int) -> (u8, u8, u8, u8) {
    (s[4 * i], s[4 * i + 1], s[4 * i + 2], s[4 * i + 3])
}

/// A pixel with its first and third channel exchanged: RGBA becomes BGRA
/// and BGRA becomes RGBA.
pub open spec fn swap_red_blue(p: (u8, u8, u8, u8)) -> (u8, u8, u8, u8) {
    (p.2, p.1, p.0, p.3)
}

/// The first `pixels` pixels of the image `data` (RGBA, four bytes per
/// pixel) as BGRA: red and blue exchanged in every pixel.
pub fn rgba_to_bgra(data: &[u8], pixels: usize) -> (out: Vec<u8>)
    requires
        4 * pixels <= data@.len(),
    ensures
        out@.len() == 4 * pixels,
        forall|i: int| 0 <= i < pixels ==>
            #[trigger] pixel_of(out@, i) == swap_red_blue(pixel_of(data@, i)),
{
    let n = pixels;
    let len = data.len();
    let mut out: Vec<u8> = Vec::with_capacity(4 * n);
    let mut i: usize = 0;
    while i < n
        invariant
            len == data@.len(),
            4 * n <= len,
            i <= n,
            out@.len() == 4 * i,
            forall|j: int| 0 <= j < i ==>
                #[trigger] pixel_of(out@, j) == swap_red_blue(pixel_of(data@, j)),
        decreases n - i,
    {
        let k = 4 * i;
        let r = data[k];
        let g = data[k + 1];
        let b = data[k + 2];
        let a = data[k + 3];
        let ghost before = out@;
        out.push(b);
        out.push(g);
        out.push(r);
        out.push(a);
        proof {
            assert forall|j: int| 0 <= j < i + 1 implies
                #[trigger] pixel_of(out@, j) == swap_red_blue(pixel_of(data@, j)) by {
                if j < i {
                    assert(pixel_of(before, j) == pixel_of(out@, j));
                }
            }
        }
        i = i + 1;
    }
    out
}

/// Exchanging red and blue twice gives the pixels back: converting the BGRA
/// output back yields the image it came from.
pub proof fn swap_red_blue_involutive(data: Seq<u8>, out: Seq<u8>, back: Seq<u8>, pixels: int)
    requires
        forall|i: int| 0 <= i < pixels ==>
            #[trigger] pixel_of(out, i) == swap_red_blue(pixel_of(data, i)),
        forall|i: int| 0 <= i < pixels ==>
            #[trigger] pixel_of(back, i) == swap_red_blue(pixel_of(out, i)),
    ensures
        forall|i: int| 0 <= i < pixels ==> #[trigger] pixel_of(back, i) == pixel_of(data, i),
{
    assert forall|i: int| 0 <= i < pixels implies #[trigger] pixel_of(back, i) == pixel_of(data, i) by {
        assert(pixel_of(back, i) == swap_red_blue(pixel_of(out, i)));
        assert(pixel_of(out, i) == swap_red_blue(pixel_of(data, i)));
    }
}

// ---------------------------------------------------------------------------
// Input-shape mask
// ---------------------------------------------------------------------------

/// One rectangle of an X11 input shape, as the shape extension takes it.
#[derive(Clone, Copy, Debug, PartialEq, Eq, Structural)]
pub struct ShapeRect {
    pub x: i16,
    pub y: i16,
    pub width: u16,
    pub height: u16,
}

/// Which pixels of row `y` of a `w`-wide RGBA image are visible (alpha > 0).
pub open spec fn row_opaque(data: Seq<u8>, w: int, y: int) -> Seq<bool> {
    Seq::new(w as nat, |x: int| alpha_byte(data, w * y + x) > 0)
}

/// The first position at or after `i` that is not set (or the end).
pub open spec fn run_end(f: Seq<bool>, i: int) -> int
    decreases f.len() - i,
{
    if 0 <= i < f.len() && f[i] {
        run_end(f, i + 1)
    } else {
        i
    }
}

pub proof fn lemma_run_end_bounds(f: Seq<bool>, i: int)
    requires
        0 <= i <= f.len(),
    ensures
        i <= run_end(f, i) <= f.len(),
        i < f.len() && f[i] ==> i < run_end(f, i),
    decreases f.len() - i,
{
    if i < f.len() && f[i] {
        lemma_run_end_bounds(f, i + 1);
    }
}

/// The maximal runs of set positions at or after `i`, left to right, each as
/// `(start, length)`.
pub open spec fn runs_from(f: Seq<bool>, i: int) -> Seq<(int, int)>
    decreases f.len() - i,
{
    if i < 0 || i >= f.len() {
        Seq::empty()
    } else if f[i] {
        let e = run_end(f, i);
        proof {
            lemma_run_end_bounds(f, i);
        }
        seq![(i, e - i)] + runs_from(f, e)
    } else {
        runs_from(f, i + 1)
    }
}

/// The runs of visible pixels in row `y`, each as `(x, y, width)`.
pub open spec fn row_spans(data: Seq<u8>, w: int, y: int) -> Seq<(int, int, int)> {
    runs_from(row_opaque(data, w, y), 0).map_values(|r: (int, int)| (r.0, y, r.1))
}

/// The runs of visible pixels in the first `rows` rows, row after row.
pub open spec fn image_spans(data: Seq<u8>, w: int, rows: int) -> Seq<(int, int, int)>
    decreases rows,
{
    if rows <= 0 {
        Seq::empty()
    } else {
        image_spans(data, w, rows - 1) + row_spans(data, w, rows - 1)
    }
}

/// The shape rectangle for a run `(x, y, width)`: one pixel high, with the
/// coordinates cut to the 16-bit fields of the X11 protocol.
pub open spec fn rect_of(s: (int, int, int)) -> ShapeRect {
    ShapeRect { x: (s.0 as u32) as i16, y: (s.1 as u32) as i16, width: (s.2 as u32) as u16, height: 1 }
}

/// The input-shape rectangles of an image `data` (RGBA rows of `w` pixels).
pub open spec fn shape_of(data: Seq<u8>, w: int) -> Seq<ShapeRect> {
    image_spans(data, w, (data.len() as int) / (4 * w)).map_values(|s: (int, int, int)| rect_of(s))
}

fn rect(x: u32, y: u32, width: u32) -> (r: ShapeRect)
    ensures
        r == (ShapeRect {
            x: #[verifier::truncate] (x as i16),
            y: #[verifier::truncate] (y as i16),
            width: #[verifier::truncate] (width as u16),
            height: 1,
        }),
{
    ShapeRect {
        x: #[verifier::truncate] (x as i16),
        y: #[verifier::truncate] (y as i16),
        width: #[verifier::truncate] (width as u16),
        height: 1,
    }
}

proof fn lemma_run_end_skip(f: Seq<bool>, s: int, x: int)
    requires
        0 <= s <= x <= f.len(),
        forall|k: int| s <= k < x ==> f[k],
    ensures
        run_end(f, s) == run_end(f, x),
    decreases x - s,
{
    if s < x {
        lemma_run_end_skip(f, s + 1, x);
    }
}

proof fn lemma_row_in_bounds(len: int, rb: int, y: int)
    requires
        rb > 0,
        0 <= y,
        y < len / rb,
        len >= 0,
    ensures
        y * rb + rb <= len,
{
    vstd::arithmetic::div_mod::lemma_fundamental_div_mod(len, rb);
    let q = len / rb;
    assert(y * rb + rb <= rb * q) by (nonlinear_arith)
        requires y + 1 <= q, rb > 0;
    vstd::arithmetic::div_mod::lemma_mod_pos_bound(len, rb);
}

/// The rectangles of one row, appended to `rects`.
fn push_row_rects(data: &[u8], w: u32, row_start: usize, y: usize, rects: &mut Vec<ShapeRect>)
    requires
        0 < w,
        4 * w <= u32::MAX,
        row_start == 4 * (w * y),
        row_start + 4 * w <= data@.len(),
    ensures
        final(rects)@ == old(rects)@ + row_spans(data@, w as int, y as int).map_values(
            |s: (int, int, int)| rect_of(s),
        ),
{
    let ghost f = row_opaque(data@, w as int, y as int);
    let ghost base = old(rects)@;
    let ghost mut acc: Seq<(int, int)> = Seq::empty();
    let yy = #[verifier::truncate] (y as u32);
    let len = data.len();
    let mut run: Option<u32> = None;
    let mut x: u32 = 0;
    while x < w
        invariant
            0 < w,
            f == row_opaque(data@, w as int, y as int),
            f.len() == w,
            row_start == 4 * (w * y),
            row_start + 4 * w <= data@.len(),
            yy == #[verifier::truncate] (y as u32),
            len == data@.len(),
            x <= w,
            rects@ == base + acc.map_values(|r: (int, int)| rect_of((r.0, y as int, r.1))),
            match run {
                None => acc + runs_from(f, x as int) == runs_from(f, 0),
                Some(s) => {
                    &&& s < x
                    &&& acc + runs_from(f, s as int) == runs_from(f, 0)
                    &&& forall|k: int| s <= k < x ==> f[k]
                },
            },
        decreases w - x,
    {
        let a = data[row_start + 4 * (x as usize) + 3];
        assert(a > 0 <==> f[x as int]);
        let ghost racc = acc;
        match run {
            None => {
                if a > 0 {
                    run = Some(x);
                } else {
                    assert(runs_from(f, x as int) == runs_from(f, x + 1));
                }
            },
            Some(start) => {
                if a == 0 {
                    proof {
                        lemma_run_end_skip(f, start as int, x as int);
                        lemma_run_end_bounds(f, start as int);
                        assert(runs_from(f, start as int) == seq![(start as int, x - start)] + runs_from(f, x as int));
                        assert(runs_from(f, x as int) == runs_from(f, x + 1));
                        acc = racc.push((start as int, x - start));
                        assert(acc + runs_from(f, x + 1) == racc + runs_from(f, start as int));
                    }
                    let r = rect(start, yy, x - start);
                    rects.push(r);
                    proof {
                        assert(acc.map_values(|r: (int, int)| rect_of((r.0, y as int, r.1)))
                            == racc.map_values(|r: (int, int)| rect_of((r.0, y as int, r.1))).push(r));
                    }
                    run = None;
                }
            },
        }
        x = x + 1;
    }
    match run {
        None => {
            assert(acc == runs_from(f, 0));
        },
        Some(start) => {
            let ghost racc = acc;
            proof {
                lemma_run_end_skip(f, start as int, w as int);
                assert(runs_from(f, start as int) == seq![(start as int, w - start)] + runs_from(f, w as int));
                acc = racc.push((start as int, w - start));
                assert(acc == runs_from(f, 0));
            }
            let r = rect(start, yy, w - start);
            rects.push(r);
            proof {
                assert(acc.map_values(|r: (int, int)| rect_of((r.0, y as int, r.1)))
                    == racc.map_values(|r: (int, int)| rect_of((r.0, y as int, r.1))).push(r));
            }
        },
    }
    assert(row_spans(data@, w as int, y as int).map_values(|s: (int, int, int)| rect_of(s))
        == acc.map_values(|r: (int, int)| rect_of((r.0, y as int, r.1))));
}

/// The input shape of an image: for every row of `w` pixels in `data`
/// (trailing bytes that make no whole row are left out), one rectangle per
/// maximal run of pixels whose alpha is not zero, left to right, row after
/// row.
pub fn input_shape(data: &[u8], w: u32) -> (rects: Vec<ShapeRect>)
    requires
        0 < w,
        4 * w <= u32::MAX,
    ensures
        rects@ == shape_of(data@, w as int),
{
    let row_bytes = (w * 4) as usize;
    let len = data.len();
    let rows = len / row_bytes;
    let mut rects: Vec<ShapeRect> = Vec::new();
    let mut y: usize = 0;
    while y < rows
        invariant
            0 < w,
            4 * w <= u32::MAX,
            row_bytes == 4 * w,
            len == data@.len(),
            rows == (data@.len() as int) / (4 * w),
            y <= rows,
            rects@ == image_spans(data@, w as int, y as int).map_values(|s: (int, int, int)| rect_of(s)),
        decreases rows - y,
    {
        proof {
            lemma_row_in_bounds(len as int, row_bytes as int, y as int);
            assert(y * row_bytes == 4 * (w * y)) by (nonlinear_arith)
                requires row_bytes == 4 * w;
        }
        let row_start = y * row_bytes;
        let ghost before = rects@;
        push_row_rects(data, w, row_start, y, &mut rects);
        proof {
            let m = |s: (int, int, int)| rect_of(s);
            assert(image_spans(data@, w as int, y + 1) == image_spans(data@, w as int, y as int)
                + row_spans(data@, w as int, y as int));
            assert((image_spans(data@, w as int, y as int) + row_spans(data@, w as int, y as int)).map_values(m)
                == image_spans(data@, w as int, y as int).map_values(m)
                    + row_spans(data@, w as int, y as int).map_values(m));
        }
        y = y + 1;
    }
    rects
}


// ---------------------------------------------------------------------------
// What the mask covers
// ---------------------------------------------------------------------------

/// `r = (start, length)` is a maximal run of set positions of `f`.
pub open spec fn is_maximal_run(f: Seq<bool>, r: (int, int)) -> bool {
    &&& 0 <= r.0
    &&& 1 <= r.1
    &&& r.0 + r.1 <= f.len()
    &&& forall|t: int| r.0 <= t < r.0 + r.1 ==> #[trigger] f[t]
    &&& (r.0 == 0 || !f[r.0 - 1])
    &&& (r.0 + r.1 == f.len() || !f[r.0 + r.1])
}

/// Runs in strictly increasing order with a gap between neighbours.
pub open spec fn runs_ordered(rs: Seq<(int, int)>) -> bool {
    forall|a: int, b: int| 0 <= a < b < rs.len() ==> #[trigger] rs[a].0 + rs[a].1 < #[trigger] rs[b].0
}

proof fn lemma_run_end_props(f: Seq<bool>, i: int)
    requires
        0 <= i <= f.len(),
    ensures
        forall|t: int| i <= t < run_end(f, i) ==> #[trigger] f[t],
        run_end(f, i) == f.len() || !f[run_end(f, i)],
        i <= run_end(f, i) <= f.len(),
    decreases f.len() - i,
{
    lemma_run_end_bounds(f, i);
    if i < f.len() && f[i] {
        lemma_run_end_props(f, i + 1);
    }
}

proof fn lemma_runs_from_exact(f: Seq<bool>, i: int)
    requires
        0 <= i <= f.len(),
        i == 0 || i == f.len() || !f[i - 1] || !f[i],
    ensures
        forall|k: int| 0 <= k < runs_from(f, i).len() ==> is_maximal_run(f, #[trigger] runs_from(f, i)[k]),
        forall|k: int| 0 <= k < runs_from(f, i).len() ==> i <= #[trigger] runs_from(f, i)[k].0,
        runs_ordered(runs_from(f, i)),
        forall|t: int| i <= t < f.len() && #[trigger] f[t] ==> exists|k: int|
            0 <= k < runs_from(f, i).len() && (#[trigger] runs_from(f, i)[k]).0 <= t < runs_from(f, i)[k].0 + runs_from(f, i)[k].1,
    decreases f.len() - i,
{
    if i == f.len() {
    } else if f[i] {
        let e = run_end(f, i);
        lemma_run_end_props(f, i);
        lemma_run_end_bounds(f, i);
        lemma_runs_from_exact(f, e);
        let rest = runs_from(f, e);
        let rs = runs_from(f, i);
        assert(rs == seq![(i, e - i)] + rest);
        assert(is_maximal_run(f, (i, e - i)));
        assert forall|k: int| 0 <= k < rs.len() implies is_maximal_run(f, #[trigger] rs[k]) by {
            if k > 0 {
                assert(rs[k] == rest[k - 1]);
            }
        }
        assert forall|k: int| 0 <= k < rs.len() implies i <= #[trigger] rs[k].0 by {
            if k > 0 {
                assert(rs[k] == rest[k - 1]);
            }
        }
        assert forall|a: int, b: int| 0 <= a < b < rs.len() implies #[trigger] rs[a].0 + rs[a].1 < #[trigger] rs[b].0 by {
            assert(rs[b] == rest[b - 1]);
            assert(is_maximal_run(f, rest[b - 1]));
            assert(f[rest[b - 1].0]);
            if a > 0 {
                assert(rs[a] == rest[a - 1]);
            }
        }
        assert forall|t: int| i <= t < f.len() && #[trigger] f[t] implies exists|k: int|
            0 <= k < rs.len() && (#[trigger] rs[k]).0 <= t < rs[k].0 + rs[k].1 by {
            if t < e {
                assert(rs[0].0 <= t < rs[0].0 + rs[0].1);
            } else {
                let k = choose|k: int| 0 <= k < rest.len() && (#[trigger] rest[k]).0 <= t < rest[k].0 + rest[k].1;
                assert(rs[k + 1] == rest[k]);
            }
        }
    } else {
        lemma_runs_from_exact(f, i + 1);
    }
}

/// Pixel `(x, y)` of a `w`-wide RGBA image is visible.
pub open spec fn visible(data: Seq<u8>, w: int, x: int, y: int) -> bool {
    alpha_byte(data, w * y + x) > 0
}

/// `s = (x, y, width)` is a maximal horizontal run of visible pixels in one
/// of the first `rows` rows.
pub open spec fn is_visible_span(data: Seq<u8>, w: int, rows: int, s: (int, int, int)) -> bool {
    &&& 0 <= s.1 < rows
    &&& 0 <= s.0
    &&& 1 <= s.2
    &&& s.0 + s.2 <= w
    &&& forall|x: int| s.0 <= x < s.0 + s.2 ==> #[trigger] visible(data, w, x, s.1)
    &&& (s.0 == 0 || !visible(data, w, s.0 - 1, s.1))
    &&& (s.0 + s.2 == w || !visible(data, w, s.0 + s.2, s.1))
}

/// `a` comes before `b` in y-x banded order, with a gap when on one row.
pub open spec fn banded_before(a: (int, int, int), b: (int, int, int)) -> bool {
    a.1 < b.1 || (a.1 == b.1 && a.0 + a.2 < b.0)
}

proof fn lemma_row_spans_exact(data: Seq<u8>, w: int, rows: int, y: int)
    requires
        0 < w,
        0 <= y < rows,
    ensures
        forall|k: int| 0 <= k < row_spans(data, w, y).len() ==>
            is_visible_span(data, w, rows, #[trigger] row_spans(data, w, y)[k]),
        forall|k: int| 0 <= k < row_spans(data, w, y).len() ==> (#[trigger] row_spans(data, w, y)[k]).1 == y,
        forall|a: int, b: int| 0 <= a < b < row_spans(data, w, y).len() ==>
            banded_before(#[trigger] row_spans(data, w, y)[a], #[trigger] row_spans(data, w, y)[b]),
        forall|x: int| 0 <= x < w && #[trigger] visible(data, w, x, y) ==> exists|k: int|
            0 <= k < row_spans(data, w, y).len() && (#[trigger] row_spans(data, w, y)[k]).0 <= x
                < row_spans(data, w, y)[k].0 + row_spans(data, w, y)[k].2,
{
    let f = row_opaque(data, w, y);
    lemma_runs_from_exact(f, 0);
    let rs = runs_from(f, 0);
    let sp = row_spans(data, w, y);
    assert(sp.len() == rs.len());
    assert forall|k: int| 0 <= k < sp.len() implies is_visible_span(data, w, rows, #[trigger] sp[k]) by {
        assert(sp[k] == (rs[k].0, y, rs[k].1));
        assert(is_maximal_run(f, rs[k]));
        assert forall|x: int| sp[k].0 <= x < sp[k].0 + sp[k].2 implies #[trigger] visible(data, w, x, y) by {
            assert(f[x]);
        }
        if sp[k].0 > 0 {
            assert(!f[sp[k].0 - 1]);
        }
        if sp[k].0 + sp[k].2 < w {
            assert(!f[sp[k].0 + sp[k].2]);
        }
    }
    assert forall|a: int, b: int| 0 <= a < b < sp.len() implies banded_before(#[trigger] sp[a], #[trigger] sp[b]) by {
        assert(rs[a].0 + rs[a].1 < rs[b].0);
    }
    assert forall|x: int| 0 <= x < w && #[trigger] visible(data, w, x, y) implies exists|k: int|
        0 <= k < sp.len() && (#[trigger] sp[k]).0 <= x < sp[k].0 + sp[k].2 by {
        assert(f[x]);
        let k = choose|k: int| 0 <= k < rs.len() && (#[trigger] rs[k]).0 <= x < rs[k].0 + rs[k].1;
        assert(sp[k] == (rs[k].0, y, rs[k].1));
    }
}

/// The input shape is exact: every rectangle is a maximal run of visible
/// pixels, the rectangles come in y-x banded order without overlapping (as
/// the `YXBanded` ordering of the shape request demands), and every visible
/// pixel lies in one of them.
pub proof fn input_shape_is_exact(data: Seq<u8>, w: int, rows: int)
    requires
        0 < w,
        0 <= rows,
    ensures
        forall|k: int| 0 <= k < image_spans(data, w, rows).len() ==>
            is_visible_span(data, w, rows, #[trigger] image_spans(data, w, rows)[k]),
        forall|a: int, b: int| 0 <= a < b < image_spans(data, w, rows).len() ==>
            banded_before(#[trigger] image_spans(data, w, rows)[a], #[trigger] image_spans(data, w, rows)[b]),
        forall|x: int, y: int| 0 <= x < w && 0 <= y < rows && #[trigger] visible(data, w, x, y) ==>
            exists|k: int| 0 <= k < image_spans(data, w, rows).len()
                && (#[trigger] image_spans(data, w, rows)[k]).1 == y
                && image_spans(data, w, rows)[k].0 <= x < image_spans(data, w, rows)[k].0
                    + image_spans(data, w, rows)[k].2,
    decreases rows,
{
    if rows > 0 {
        input_shape_is_exact(data, w, rows - 1);
        lemma_row_spans_exact(data, w, rows, rows - 1);
        let prev = image_spans(data, w, rows - 1);
        let row = row_spans(data, w, rows - 1);
        let all = image_spans(data, w, rows);
        assert(all == prev + row);
        assert forall|k: int| 0 <= k < all.len() implies is_visible_span(data, w, rows, #[trigger] all[k]) by {
            if k < prev.len() {
                assert(all[k] == prev[k]);
                assert(is_visible_span(data, w, rows - 1, prev[k]));
            } else {
                assert(all[k] == row[k - prev.len()]);
            }
        }
        assert forall|a: int, b: int| 0 <= a < b < all.len() implies banded_before(#[trigger] all[a], #[trigger] all[b]) by {
            if b < prev.len() {
                assert(all[a] == prev[a] && all[b] == prev[b]);
            } else if a < prev.len() {
                assert(all[a] == prev[a]);
                assert(is_visible_span(data, w, rows - 1, prev[a]));
                assert(all[b] == row[b - prev.len()]);
                assert(row[b - prev.len()].1 == rows - 1);
            } else {
                assert(all[a] == row[a - prev.len()]);
                assert(all[b] == row[b - prev.len()]);
            }
        }
        assert forall|x: int, y: int| 0 <= x < w && 0 <= y < rows && #[trigger] visible(data, w, x, y) implies
            exists|k: int| 0 <= k < all.len() && (#[trigger] all[k]).1 == y && all[k].0 <= x < all[k].0 + all[k].2 by {
            if y < rows - 1 {
                let k = choose|k: int| 0 <= k < prev.len() && (#[trigger] prev[k]).1 == y && prev[k].0 <= x < prev[k].0 + prev[k].2;
                assert(all[k] == prev[k]);
            } else {
                let k = choose|k: int| 0 <= k < row.len() && (#[trigger] row[k]).0 <= x < row[k].0 + row[k].2;
                assert(all[k + prev.len()] == row[k]);
                assert(row[k].1 == y);
            }
        }
    }
}


// ---------------------------------------------------------------------------
// Image strips
// ---------------------------------------------------------------------------

/// Bytes of image data that one `PutImage` request carries at most, so that
/// a frame needs no BIG-REQUESTS extension (unless a single row is larger).
pub const STRIP_BUDGET: u32 = 200_000;

/// A horizontal band of the BGRA image sent in one `PutImage` request: the
/// bytes `start..end` of the image, drawn at row `dst_y`, `height` rows high.
#[derive(Clone, Copy, Debug, PartialEq, Eq, Structural)]
pub struct Strip {
    pub start: usize,
    pub end: usize,
    pub dst_y: i16,
    pub height: u16,
}

/// Rows per strip for an image `w` pixels wide: as many as fit in the
/// budget, and at least one.
pub open spec fn rows_per_strip(w: int) -> int {
    let q = (STRIP_BUDGET as int) / (4 * w);
    if q >= 1 {
        q
    } else {
        1
    }
}

/// The strips of rows `r..h` of an image `w` pixels wide, `rps` rows each
/// (the last one shorter if the rows run out).
pub open spec fn strips_from(w: int, h: int, rps: int, r: int) -> Seq<Strip>
    decreases h - r,
{
    if r < 0 || r >= h || rps <= 0 {
        Seq::empty()
    } else {
        let rows = if rps <= h - r {
            rps
        } else {
            h - r
        };
        seq![
            Strip {
                start: (r * (4 * w)) as usize,
                end: ((r + rows) * (4 * w)) as usize,
                dst_y: (r as u32) as i16,
                height: (rows as u32) as u16,
            },
        ] + strips_from(w, h, rps, r + rows)
    }
}

/// The strips a `w` x `h` image is sent in.
pub open spec fn image_strips_spec(w: int, h: int) -> Seq<Strip> {
    strips_from(w, h, rows_per_strip(w), 0)
}

/// Cuts the BGRA data of a `w` x `h` image (`4 * w * h` bytes) into strips
/// of at most `STRIP_BUDGET` bytes (whole rows, at least one row each).
pub fn image_strips(w: u32, h: u32) -> (strips: Vec<Strip>)
    requires
        0 < w,
        4 * w <= u32::MAX,
        4 * w * h <= usize::MAX,
    ensures
        strips@ == image_strips_spec(w as int, h as int),
{
    let row_bytes = w * 4;
    let q = STRIP_BUDGET / row_bytes;
    let rps = if q >= 1 {
        q
    } else {
        1
    };
    let mut strips: Vec<Strip> = Vec::new();
    let mut r: u32 = 0;
    while r < h
        invariant
            0 < w,
            row_bytes == 4 * w,
            4 * w * h <= usize::MAX,
            rps == rows_per_strip(w as int),
            rps >= 1,
            r <= h,
            strips@ + strips_from(w as int, h as int, rps as int, r as int) == image_strips_spec(w as int, h as int),
        decreases h - r,
    {
        let rows = if rps <= h - r {
            rps
        } else {
            h - r
        };
        proof {
            assert((r + rows) * (4 * w) <= 4 * w * h) by (nonlinear_arith)
                requires r + rows <= h, 0 < w;
            assert(r * (4 * w) <= (r + rows) * (4 * w)) by (nonlinear_arith)
                requires 0 < w, 0 <= r, 0 <= rows;
        }
        let start = (r as usize) * (row_bytes as usize);
        let end = ((r + rows) as usize) * (row_bytes as usize);
        let ghost before = strips@;
        strips.push(
            Strip {
                start,
                end,
                dst_y: #[verifier::truncate] (r as i16),
                height: #[verifier::truncate] (rows as u16),
            },
        );
        proof {
            assert(strips_from(w as int, h as int, rps as int, r as int) == seq![strips@.last()]
                + strips_from(w as int, h as int, rps as int, r + rows));
            assert(strips@ + strips_from(w as int, h as int, rps as int, r + rows) == before
                + strips_from(w as int, h as int, rps as int, r as int));
        }
        r = r + rows;
    }
    strips
}


proof fn lemma_strips_from_tile(w: int, h: int, rps: int, r: int)
    requires
        0 < w,
        1 <= rps,
        0 <= r < h,
        4 * w * h <= usize::MAX,
    ensures
        strips_from(w, h, rps, r).len() >= 1,
        strips_from(w, h, rps, r)[0].start as int == r * (4 * w),
        strips_from(w, h, rps, r).last().end as int == h * (4 * w),
        forall|i: int| 0 <= i < strips_from(w, h, rps, r).len() - 1 ==>
            (#[trigger] strips_from(w, h, rps, r)[i]).end == strips_from(w, h, rps, r)[i + 1].start,
        forall|i: int| 0 <= i < strips_from(w, h, rps, r).len() ==>
            (#[trigger] strips_from(w, h, rps, r)[i]).start < strips_from(w, h, rps, r)[i].end
            && strips_from(w, h, rps, r)[i].end - strips_from(w, h, rps, r)[i].start <= rps * (4 * w),
    decreases h - r,
{
    let rows = if rps <= h - r { rps } else { h - r };
    let s = strips_from(w, h, rps, r);
    let rest = strips_from(w, h, rps, r + rows);
    assert((r + rows) * (4 * w) <= 4 * w * h) by (nonlinear_arith)
        requires r + rows <= h, 0 < w;
    assert(r * (4 * w) < (r + rows) * (4 * w)) by (nonlinear_arith)
        requires 0 < w, 0 <= r, 1 <= rows;
    assert((r + rows) * (4 * w) - r * (4 * w) <= rps * (4 * w)) by (nonlinear_arith)
        requires 0 < w, rows <= rps;
    let first = s[0];
    assert(first.start as int == r * (4 * w));
    assert(first.end as int == (r + rows) * (4 * w));
    if r + rows < h {
        lemma_strips_from_tile(w, h, rps, r + rows);
        assert(s == seq![first] + rest);
        assert forall|i: int| 0 <= i < s.len() - 1 implies (#[trigger] s[i]).end == s[i + 1].start by {
            assert(s[i + 1] == rest[i]);
            if i > 0 {
                assert(s[i] == rest[i - 1]);
            }
        }
        assert forall|i: int| 0 <= i < s.len() implies (#[trigger] s[i]).start < s[i].end
            && s[i].end - s[i].start <= rps * (4 * w) by {
            if i > 0 {
                assert(s[i] == rest[i - 1]);
            }
        }
    } else {
        assert(rest.len() == 0);
        assert(s.len() == 1);
    }
}

/// The strips tile the image: they start at byte 0, each begins where the
/// one before it ends, the last ends with the image, none is empty, and none
/// is longer than the request budget unless one row alone is.
pub proof fn strips_tile_image(w: int, h: int)
    requires
        0 < w,
        0 < h,
        4 * w * h <= usize::MAX,
    ensures
        image_strips_spec(w, h).len() >= 1,
        image_strips_spec(w, h)[0].start == 0,
        image_strips_spec(w, h).last().end as int == 4 * w * h,
        forall|i: int| 0 <= i < image_strips_spec(w, h).len() - 1 ==>
            (#[trigger] image_strips_spec(w, h)[i]).end == image_strips_spec(w, h)[i + 1].start,
        forall|i: int| 0 <= i < image_strips_spec(w, h).len() ==>
            (#[trigger] image_strips_spec(w, h)[i]).start < image_strips_spec(w, h)[i].end,
        forall|i: int| 0 <= i < image_strips_spec(w, h).len() ==>
            (#[trigger] image_strips_spec(w, h)[i]).end - image_strips_spec(w, h)[i].start
                <= if 4 * w <= STRIP_BUDGET { STRIP_BUDGET as int } else { 4 * w },
{
    let rps = rows_per_strip(w);
    let q = (STRIP_BUDGET as int) / (4 * w);
    vstd::arithmetic::div_mod::lemma_fundamental_div_mod(STRIP_BUDGET as int, 4 * w);
    vstd::arithmetic::div_mod::lemma_mod_pos_bound(STRIP_BUDGET as int, 4 * w);
    assert(rps * (4 * w) <= if 4 * w <= STRIP_BUDGET { STRIP_BUDGET as int } else { 4 * w }) by {
        if q >= 1 {
            assert(q * (4 * w) == (4 * w) * q) by (nonlinear_arith);
            vstd::arithmetic::div_mod::lemma_div_pos_is_pos(STRIP_BUDGET as int, 4 * w);
        } else {
            if 4 * w <= STRIP_BUDGET {
                vstd::arithmetic::div_mod::lemma_div_is_ordered(4 * w, STRIP_BUDGET as int, 4 * w);
                vstd::arithmetic::div_mod::lemma_div_by_self(4 * w);
            }
        }
    }
    lemma_strips_from_tile(w, h, rps, 0);
    assert(h * (4 * w) == 4 * w * h) by (nonlinear_arith);
}


// ---------------------------------------------------------------------------
// The mask sent last
// ---------------------------------------------------------------------------

/// What tells two input shapes apart: `(x, y, width)` of each rectangle.
pub open spec fn key_of(rects: Seq<ShapeRect>) -> Seq<(i16, i16, u16)> {
    rects.map_values(|r: ShapeRect| (r.x, r.y, r.width))
}

/// The key of a list of shape rectangles.
pub fn mask_key(rects: &Vec<ShapeRect>) -> (key: Vec<(i16, i16, u16)>)
    ensures
        key@ == key_of(rects@),
{
    let mut key: Vec<(i16, i16, u16)> = Vec::with_capacity(rects.len());
    let mut i: usize = 0;
    while i < rects.len()
        invariant
            i <= rects@.len(),
            key@ == key_of(rects@.take(i as int)),
        decreases rects@.len() - i,
    {
        let r = rects[i];
        key.push((r.x, r.y, r.width));
        proof {
            assert(rects@.take(i + 1) == rects@.take(i as int).push(r));
        }
        i = i + 1;
    }
    assert(rects@.take(rects@.len() as int) == rects@);
    key
}

fn same_key(a: &Vec<(i16, i16, u16)>, b: &Vec<(i16, i16, u16)>) -> (same: bool)
    ensures
        same == (a@ == b@),
{
    if a.len() != b.len() {
        return false;
    }
    let mut i: usize = 0;
    while i < a.len()
        invariant
            a@.len() == b@.len(),
            i <= a@.len(),
            forall|j: int| 0 <= j < i ==> a@[j] == b@[j],
        decreases a@.len() - i,
    {
        let x = a[i];
        let y = b[i];
        if !(x.0 == y.0 && x.1 == y.1 && x.2 == y.2) {
            return false;
        }
        i = i + 1;
    }
    assert(a@ =~= b@);
    true
}

/// The input shape last sent to the window system.
pub struct MaskCache {
    pub last: Vec<(i16, i16, u16)>,
}

/// Recording shape `key` after `last`: whether it must be sent, and what is
/// remembered afterwards.
pub open spec fn record_shape(last: Seq<(i16, i16, u16)>, key: Seq<(i16, i16, u16)>) -> (bool, Seq<(i16, i16, u16)>) {
    (key != last, key)
}

impl MaskCache {
    /// No shape sent yet.
    pub fn new() -> (c: MaskCache)
        ensures
            c.last@ == Seq::<(i16, i16, u16)>::empty(),
    {
        MaskCache { last: Vec::new() }
    }

    /// Records the shape of the current frame; `true` when it differs from
    /// the one sent last, that is, when it has to be sent.
    pub fn refresh(&mut self, key: Vec<(i16, i16, u16)>) -> (changed: bool)
        ensures
            (changed, final(self).last@) == record_shape(old(self).last@, key@),
    {
        if same_key(&key, &self.last) {
            false
        } else {
            self.last = key;
            true
        }
    }
}

/// A shape is sent once: recording the same shape a second time asks for
/// nothing to be sent and remembers the same shape.
pub proof fn mask_sent_once(last: Seq<(i16, i16, u16)>, key: Seq<(i16, i16, u16)>)
    ensures
        !record_shape(record_shape(last, key).1, key).0,
        record_shape(record_shape(last, key).1, key).1 == record_shape(last, key).1,
{
}

// ---------------------------------------------------------------------------
// One frame for an X11 window
// ---------------------------------------------------------------------------

/// Everything an X11 window needs to show one rendered frame: the image width
/// as the request takes it, the BGRA bytes, the strips to send them in, and
/// the input shape.
pub struct X11Frame {
    pub width: u16,
    pub bgra: Vec<u8>,
    pub strips: Vec<Strip>,
    pub rects: Vec<ShapeRect>,
}

/// Prepares a rendered pixmap for an X11 window: its whole rows of pixels
/// as BGRA, the strips to send them in, and the input shape.
pub fn x11_frame(p: &Pixmap) -> (f: X11Frame)
    requires
        rows_of(*p) <= u32::MAX,
    ensures
        f.width == #[verifier::truncate] (pixmap_size(*p).0 as u16),
        f.bgra@.len() == 4 * (pixmap_size(*p).0 as int) * rows_of(*p),
        forall|i: int| 0 <= i < (pixmap_size(*p).0 as int) * rows_of(*p) ==>
            #[trigger] pixel_of(f.bgra@, i) == swap_red_blue(pixel_of(pixmap_data(*p), i)),
        f.strips@ == image_strips_spec(pixmap_size(*p).0 as int, rows_of(*p)),
        f.rects@ == shape_of(pixmap_data(*p), pixmap_size(*p).0 as int),
{
    let w = pixmap_width(p);
    let data = pixmap_bytes(p);
    let len = data.len();
    let rows = len / (w as usize * 4);
    proof {
        vstd::arithmetic::div_mod::lemma_fundamental_div_mod(len as int, 4 * w as int);
        vstd::arithmetic::div_mod::lemma_mod_pos_bound(len as int, 4 * w as int);
        assert(rows * (4 * w as int) <= len) by (nonlinear_arith)
            requires len == (4 * w as int) * (len as int / (4 * w as int)) + (len as int % (4 * w as int)),
                rows == len as int / (4 * w as int), 0 <= len as int % (4 * w as int);
        assert(4 * (w * rows) == rows * (4 * w as int)) by (nonlinear_arith);
        assert(4 * w * rows == rows * (4 * w as int)) by (nonlinear_arith);
    }
    let bgra = rgba_to_bgra(data, w as usize * rows);
    let strips = image_strips(w, rows as u32);
    let rects = input_shape(data, w);
    X11Frame { width: #[verifier::truncate] (w as u16), bgra, strips, rects }
}


/// Two flag sequences set the same positions (beyond its length a sequence
/// sets none).
pub open spec fn same_set(f: Seq<bool>, g: Seq<bool>) -> bool {
    forall|x: int| #![trigger f[x]] #![trigger g[x]] 0 <= x ==> ((x < f.len() && f[x]) == (x < g.len() && g[x]))
}

proof fn lemma_same_set_run_end(f: Seq<bool>, g: Seq<bool>, i: int)
    requires
        same_set(f, g),
        0 <= i,
    ensures
        run_end(f, i) == run_end(g, i),
    decreases (if f.len() > g.len() { f.len() as int } else { g.len() as int }) - i,
{
    assert((i < f.len() && f[i]) == (i < g.len() && g[i]));
    if i < f.len() && f[i] {
        lemma_same_set_run_end(f, g, i + 1);
    }
}

proof fn lemma_same_set_runs(f: Seq<bool>, g: Seq<bool>, i: int)
    requires
        same_set(f, g),
        0 <= i,
    ensures
        runs_from(f, i) == runs_from(g, i),
    decreases (if f.len() > g.len() { f.len() as int } else { g.len() as int }) - i,
{
    assert((i < f.len() && f[i]) == (i < g.len() && g[i]));
    if i >= f.len() && i >= g.len() {
    } else if i < f.len() && f[i] {
        lemma_run_end_bounds(f, i);
        lemma_same_set_run_end(f, g, i);
        lemma_same_set_runs(f, g, run_end(f, i));
    } else {
        lemma_same_set_runs(f, g, i + 1);
        if i >= f.len() {
            assert(runs_from(f, i + 1) == Seq::<(int, int)>::empty());
        }
        if i >= g.len() {
            assert(runs_from(g, i + 1) == Seq::<(int, int)>::empty());
        }
    }
}

/// Two frames, `w1` pixels wide with `r1` rows and `w2` wide with `r2`
/// rows, have the same visible pixels at the same places.
pub open spec fn same_visible(d1: Seq<u8>, w1: int, r1: int, d2: Seq<u8>, w2: int, r2: int) -> bool {
    forall|x: int, y: int|
        #![trigger visible(d1, w1, x, y)]
        #![trigger visible(d2, w2, x, y)]
        0 <= x && 0 <= y ==> ((x < w1 && y < r1 && visible(d1, w1, x, y)) == (x < w2 && y < r2
            && visible(d2, w2, x, y)))
}

proof fn lemma_same_visible_rows(d1: Seq<u8>, w1: int, r1: int, d2: Seq<u8>, w2: int, r2: int, y: int)
    requires
        0 < w1,
        0 < w2,
        0 <= y,
        same_visible(d1, w1, r1, d2, w2, r2),
    ensures
        y < r1 && y < r2 ==> row_spans(d1, w1, y) == row_spans(d2, w2, y),
        y < r1 && y >= r2 ==> row_spans(d1, w1, y) == Seq::<(int, int, int)>::empty(),
        y >= r1 && y < r2 ==> row_spans(d2, w2, y) == Seq::<(int, int, int)>::empty(),
{
    let f = row_opaque(d1, w1, y);
    let g = row_opaque(d2, w2, y);
    let e = Seq::<bool>::empty();
    if y < r1 && y < r2 {
        assert(same_set(f, g)) by {
            assert forall|x: int| #![trigger f[x]] #![trigger g[x]] 0 <= x implies ((x < f.len() && f[x]) == (x < g.len() && g[x])) by {
                if x < w1 {
                    assert(f[x] == visible(d1, w1, x, y));
                }
                if x < w2 {
                    assert(g[x] == visible(d2, w2, x, y));
                }
            }
        }
        lemma_same_set_runs(f, g, 0);
    }
    if y < r1 && y >= r2 {
        assert(same_set(f, e)) by {
            assert forall|x: int| #![trigger f[x]] #![trigger e[x]] 0 <= x implies ((x < f.len() && f[x]) == (x < e.len() && e[x])) by {
                if x < w1 {
                    assert(f[x] == visible(d1, w1, x, y));
                }
            }
        }
        lemma_same_set_runs(f, e, 0);
        assert(runs_from(e, 0) == Seq::<(int, int)>::empty());
        assert(row_spans(d1, w1, y) =~= Seq::<(int, int, int)>::empty());
    }
    if y >= r1 && y < r2 {
        assert(same_set(g, e)) by {
            assert forall|x: int| #![trigger g[x]] #![trigger e[x]] 0 <= x implies ((x < g.len() && g[x]) == (x < e.len() && e[x])) by {
                if x < w2 {
                    assert(g[x] == visible(d2, w2, x, y));
                }
            }
        }
        lemma_same_set_runs(g, e, 0);
        assert(runs_from(e, 0) == Seq::<(int, int)>::empty());
        assert(row_spans(d2, w2, y) =~= Seq::<(int, int, int)>::empty());
    }
}

proof fn lemma_same_visible_spans(d1: Seq<u8>, w1: int, r1: int, d2: Seq<u8>, w2: int, r2: int, r: int)
    requires
        0 < w1,
        0 < w2,
        0 <= r1,
        0 <= r2,
        0 <= r,
        same_visible(d1, w1, r1, d2, w2, r2),
    ensures
        image_spans(d1, w1, if r < r1 { r } else { r1 }) == image_spans(d2, w2, if r < r2 { r } else { r2 }),
    decreases r,
{
    if r > 0 {
        let y = r - 1;
        lemma_same_visible_spans(d1, w1, r1, d2, w2, r2, y);
        lemma_same_visible_rows(d1, w1, r1, d2, w2, r2, y);
        let a = image_spans(d1, w1, if y < r1 { y } else { r1 });
        let b = image_spans(d2, w2, if y < r2 { y } else { r2 });
        if y < r1 {
            assert(image_spans(d1, w1, r) == a + row_spans(d1, w1, y));
        }
        if y < r2 {
            assert(image_spans(d2, w2, r) == b + row_spans(d2, w2, y));
        }
        if y < r1 && y >= r2 {
            assert(a + row_spans(d1, w1, y) =~= a);
        }
        if y >= r1 && y < r2 {
            assert(b + row_spans(d2, w2, y) =~= b);
        }
    }
}

/// The input shape depends on the visible pixels alone: two frames (of any
/// sizes) whose whole rows hold the same visible pixels at the same places
/// have the same shape and the same key, so after one of them is shown the
/// other sends no new shape.
pub proof fn same_visible_same_shape(
    d1: Seq<u8>,
    w1: int,
    d2: Seq<u8>,
    w2: int,
    last: Seq<(i16, i16, u16)>,
)
    requires
        0 < w1,
        0 < w2,
        same_visible(d1, w1, (d1.len() as int) / (4 * w1), d2, w2, (d2.len() as int) / (4 * w2)),
    ensures
        shape_of(d1, w1) == shape_of(d2, w2),
        key_of(shape_of(d1, w1)) == key_of(shape_of(d2, w2)),
        !record_shape(record_shape(last, key_of(shape_of(d1, w1))).1, key_of(shape_of(d2, w2))).0,
        record_shape(record_shape(last, key_of(shape_of(d1, w1))).1, key_of(shape_of(d2, w2))).1
            == record_shape(last, key_of(shape_of(d1, w1))).1,
{
    let r1 = (d1.len() as int) / (4 * w1);
    let r2 = (d2.len() as int) / (4 * w2);
    vstd::arithmetic::div_mod::lemma_div_pos_is_pos(d1.len() as int, 4 * w1);
    vstd::arithmetic::div_mod::lemma_div_pos_is_pos(d2.len() as int, 4 * w2);
    let r = if r1 > r2 { r1 } else { r2 };
    lemma_same_visible_spans(d1, w1, r1, d2, w2, r2, r);
}


// ---------------------------------------------------------------------------
// What each operation answers, in terms of its inputs
// ---------------------------------------------------------------------------

/// The swizzle keeps green and alpha and exchanges red and blue.
pub proof fn swap_red_blue_answers(p: (u8, u8, u8, u8))
    ensures
        swap_red_blue(p).0 == p.2,
        swap_red_blue(p).1 == p.1,
        swap_red_blue(p).2 == p.0,
        swap_red_blue(p).3 == p.3,
{
}

/// A shape rectangle is one pixel high and starts where its run starts.
pub proof fn rect_answers(x: u32, y: u32, width: u32)
    ensures
        rect_of((x as int, y as int, width as int)).height == 1,
        x <= i16::MAX ==> rect_of((x as int, y as int, width as int)).x == x,
        y <= i16::MAX ==> rect_of((x as int, y as int, width as int)).y == y,
        width <= u16::MAX ==> rect_of((x as int, y as int, width as int)).width == width,
{
}

/// The key of a shape lists, for every rectangle in order, its position and
/// width.
pub proof fn key_answers(rects: Seq<ShapeRect>)
    ensures
        key_of(rects).len() == rects.len(),
        forall|i: int| 0 <= i < rects.len() ==> #[trigger] key_of(rects)[i] == (rects[i].x, rects[i].y, rects[i].width),
{
}

/// Recording a shape reports it as changed exactly when it differs from the
/// one remembered (in any rectangle, not only in their number), and remembers
/// it; so of two shapes recorded in turn, the second is sent exactly when it
/// differs from the first.
pub proof fn record_shape_answers(last: Seq<(i16, i16, u16)>, key: Seq<(i16, i16, u16)>, next: Seq<(i16, i16, u16)>)
    ensures
        key != last ==> record_shape(last, key).0,
        key == last ==> !record_shape(last, key).0,
        key.len() == last.len() && (exists|i: int| 0 <= i < key.len() && key[i] != last[i])
            ==> record_shape(last, key).0,
        record_shape(last, key).1 == key,
        record_shape(record_shape(last, key).1, next).0 == (next != key),
{
    if key.len() == last.len() && (exists|i: int| 0 <= i < key.len() && key[i] != last[i]) {
        let i = choose|i: int| 0 <= i < key.len() && key[i] != last[i];
        assert(key[i] != last[i]);
    }
}


proof fn lemma_strip_rows(w: int, h: int, rps: int, r: int)
    requires
        0 < w,
        1 <= rps <= u16::MAX,
        0 <= r,
        h <= u32::MAX,
        4 * w * h <= usize::MAX,
    ensures
        forall|i: int| 0 <= i < strips_from(w, h, rps, r).len() ==> {
            let s = #[trigger] strips_from(w, h, rps, r)[i];
            &&& 1 <= s.height <= rps
            &&& s.start as int == (s.start as int / (4 * w)) * (4 * w)
            &&& s.end as int - s.start as int == (s.height as int) * (4 * w)
            &&& s.dst_y == ((s.start as int / (4 * w)) as u32) as i16
            &&& r <= s.start as int / (4 * w) < h
        },
    decreases h - r,
{
    if r < h {
        let rows = if rps <= h - r { rps } else { h - r };
        let st = strips_from(w, h, rps, r);
        let rest = strips_from(w, h, rps, r + rows);
        lemma_strip_rows(w, h, rps, r + rows);
        assert((r + rows) * (4 * w) <= 4 * w * h) by (nonlinear_arith)
            requires r + rows <= h, 0 < w;
        assert(0 <= r * (4 * w)) by (nonlinear_arith)
            requires 0 < w, 0 <= r;
        assert((r + rows) * (4 * w) - r * (4 * w) == rows * (4 * w)) by (nonlinear_arith);
        assert((r * (4 * w)) / (4 * w) == r) by {
            vstd::arithmetic::div_mod::lemma_div_multiples_vanish(r, 4 * w);
            assert(r * (4 * w) == (4 * w) * r) by (nonlinear_arith);
        }
        assert forall|i: int| 0 <= i < st.len() implies {
            let s = #[trigger] st[i];
            &&& 1 <= s.height <= rps
            &&& s.start as int == (s.start as int / (4 * w)) * (4 * w)
            &&& s.end as int - s.start as int == (s.height as int) * (4 * w)
            &&& s.dst_y == ((s.start as int / (4 * w)) as u32) as i16
            &&& r <= s.start as int / (4 * w) < h
        } by {
            if i > 0 {
                assert(st[i] == rest[i - 1]);
            }
        }
    }
}

/// Each strip is a whole number of rows, at least one and at most the rows
/// that fit the budget, and it is drawn at the row where its bytes begin.
pub proof fn strips_are_whole_rows(w: int, h: int)
    requires
        0 < w,
        4 * w <= u32::MAX,
        h <= u32::MAX,
        4 * w * h <= usize::MAX,
    ensures
        forall|i: int| 0 <= i < image_strips_spec(w, h).len() ==> {
            let s = #[trigger] image_strips_spec(w, h)[i];
            &&& 1 <= s.height <= rows_per_strip(w)
            &&& s.start as int == (s.start as int / (4 * w)) * (4 * w)
            &&& s.end as int - s.start as int == (s.height as int) * (4 * w)
            &&& s.dst_y == ((s.start as int / (4 * w)) as u32) as i16
            &&& 0 <= s.start as int / (4 * w) < h
        },
{
    let q = (STRIP_BUDGET as int) / (4 * w);
    vstd::arithmetic::div_mod::lemma_div_is_ordered_by_denominator(STRIP_BUDGET as int, 4, 4 * w);
    lemma_strip_rows(w, h, rows_per_strip(w), 0);
}

} // verus!
