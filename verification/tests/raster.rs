use click_through::raster::{
    image_strips, input_shape, mask_key, rgba_to_bgra, x11_frame, MaskCache, ShapeRect, Strip,
    STRIP_BUDGET,
};
use resvg::tiny_skia::Pixmap;

fn rgba_from_alphas(alphas: &[u8]) -> Vec<u8> {
    let mut v = Vec::new();
    for (i, a) in alphas.iter().enumerate() {
        v.extend_from_slice(&[i as u8, 10, 20, *a]);
    }
    v
}

fn r(x: i16, y: i16, width: u16) -> ShapeRect {
    ShapeRect { x, y, width, height: 1 }
}

#[test]
fn bgra_swaps_red_and_blue() {
    let data = [1u8, 2, 3, 4, 5, 6, 7, 8];
    assert_eq!(rgba_to_bgra(&data, 2), vec![3, 2, 1, 4, 7, 6, 5, 8]);
}

#[test]
fn bgra_converts_only_the_pixels_asked_for() {
    let data = [1u8, 2, 3, 4, 5, 6, 7, 8, 9];
    assert_eq!(rgba_to_bgra(&data, 1), vec![3, 2, 1, 4]);
    assert_eq!(rgba_to_bgra(&data, 0), Vec::<u8>::new());
}

#[test]
fn bgra_twice_is_identity() {
    let data: Vec<u8> = (0u8..40).collect();
    assert_eq!(rgba_to_bgra(&rgba_to_bgra(&data, 10), 10), data);
}

#[test]
fn shape_has_one_rect_per_run() {
    // Two rows of five pixels.
    let data = rgba_from_alphas(&[0, 9, 9, 0, 7, 255, 0, 0, 1, 1]);
    let rects = input_shape(&data, 5);
    assert_eq!(rects, vec![r(1, 0, 2), r(4, 0, 1), r(0, 1, 1), r(3, 1, 2)]);
}

#[test]
fn shape_of_transparent_image_is_empty() {
    let data = rgba_from_alphas(&[0; 12]);
    assert!(input_shape(&data, 4).is_empty());
}

#[test]
fn shape_of_opaque_rows_is_one_rect_per_row() {
    let data = rgba_from_alphas(&[1; 9]);
    assert_eq!(input_shape(&data, 3), vec![r(0, 0, 3), r(0, 1, 3), r(0, 2, 3)]);
}

#[test]
fn shape_ignores_incomplete_row() {
    // Seven pixels, rows of three: the seventh pixel makes no row.
    let data = rgba_from_alphas(&[0, 1, 0, 1, 1, 0, 1]);
    assert_eq!(input_shape(&data, 3), vec![r(1, 0, 1), r(0, 1, 2)]);
}

#[test]
fn shape_only_looks_at_alpha() {
    let mut data = rgba_from_alphas(&[0, 0]);
    data[0] = 255;
    data[1] = 255;
    data[2] = 255;
    assert!(input_shape(&data, 2).is_empty());
}

#[test]
fn one_strip_for_small_image() {
    assert_eq!(
        image_strips(200, 200),
        vec![Strip { start: 0, end: 160_000, dst_y: 0, height: 200 }]
    );
}

#[test]
fn strips_cut_by_budget() {
    // 4000 bytes a row: 50 rows a strip.
    assert_eq!(
        image_strips(1000, 120),
        vec![
            Strip { start: 0, end: 200_000, dst_y: 0, height: 50 },
            Strip { start: 200_000, end: 400_000, dst_y: 50, height: 50 },
            Strip { start: 400_000, end: 480_000, dst_y: 100, height: 20 },
        ]
    );
}

#[test]
fn strips_of_one_row_when_a_row_exceeds_budget() {
    let w = 60_000u32;
    let row = 4 * w as usize;
    assert!(row > STRIP_BUDGET as usize);
    assert_eq!(
        image_strips(w, 2),
        vec![
            Strip { start: 0, end: row, dst_y: 0, height: 1 },
            Strip { start: row, end: 2 * row, dst_y: 1, height: 1 },
        ]
    );
}

#[test]
fn strips_tile_image_example() {
    let strips = image_strips(333, 777);
    assert_eq!(strips[0].start, 0);
    assert_eq!(strips.last().unwrap().end, 4 * 333 * 777);
    for pair in strips.windows(2) {
        assert_eq!(pair[0].end, pair[1].start);
    }
    for s in &strips {
        assert!(s.end - s.start <= STRIP_BUDGET as usize);
    }
    assert!(image_strips(5, 0).is_empty());
}

#[test]
fn mask_sent_only_when_changed() {
    let mut cache = MaskCache::new();
    let a = mask_key(&vec![r(1, 0, 2), r(0, 1, 1)]);
    assert_eq!(a, vec![(1, 0, 2), (0, 1, 1)]);
    assert!(cache.refresh(a.clone()));
    assert!(!cache.refresh(a.clone()));
    assert!(cache.refresh(vec![(1, 0, 3)]));
    assert_eq!(cache.last, vec![(1, 0, 3)]);
    assert!(cache.refresh(vec![]));
    assert!(!cache.refresh(vec![]));
}

#[test]
fn x11_frame_of_wide_pixmap_cuts_strips() {
    let p = Pixmap::new(1000, 120).unwrap();
    let f = x11_frame(&p);
    assert_eq!(f.width, 1000);
    assert_eq!(f.bgra.len(), 480_000);
    assert_eq!(f.strips.len(), 3);
    assert_eq!(f.strips[2], Strip { start: 400_000, end: 480_000, dst_y: 100, height: 20 });
    assert!(f.rects.is_empty());
}

#[test]
fn x11_frame_of_pixmap() {
    let mut p = Pixmap::new(3, 2).unwrap();
    let data = p.data_mut();
    // Row 0: pixel 1 visible; row 1: pixels 0 and 1 visible.
    data[4..8].copy_from_slice(&[10, 20, 30, 40]);
    data[12..16].copy_from_slice(&[1, 2, 3, 255]);
    data[16..20].copy_from_slice(&[4, 5, 6, 7]);
    let f = x11_frame(&p);
    assert_eq!(f.width, 3);
    assert_eq!(f.bgra.len(), 24);
    assert_eq!(&f.bgra[4..8], &[30, 20, 10, 40]);
    assert_eq!(&f.bgra[12..16], &[3, 2, 1, 255]);
    assert_eq!(f.strips, vec![Strip { start: 0, end: 24, dst_y: 0, height: 2 }]);
    assert_eq!(f.rects, vec![r(1, 0, 1), r(0, 1, 2)]);
}

#[test]
fn same_visible_pixels_send_no_new_shape() {
    let mut a = Pixmap::new(3, 2).unwrap();
    let mut b = Pixmap::new(3, 2).unwrap();
    a.data_mut()[4..8].copy_from_slice(&[10, 20, 30, 40]);
    b.data_mut()[4..8].copy_from_slice(&[99, 1, 2, 3]);
    let mut cache = MaskCache::new();
    assert!(cache.refresh(mask_key(&x11_frame(&a).rects)));
    assert!(!cache.refresh(mask_key(&x11_frame(&b).rects)));
}

#[test]
fn same_visible_pixels_in_a_larger_frame_give_the_same_shape() {
    let mut a = Pixmap::new(3, 2).unwrap();
    let mut b = Pixmap::new(5, 4).unwrap();
    a.data_mut()[4..8].copy_from_slice(&[10, 20, 30, 40]);
    a.data_mut()[20..24].copy_from_slice(&[1, 1, 1, 1]);
    // The same pixels (1, 0) and (2, 1) in a frame five wide.
    b.data_mut()[4..8].copy_from_slice(&[7, 7, 7, 7]);
    b.data_mut()[4 * 7..4 * 8].copy_from_slice(&[9, 9, 9, 9]);
    let ra = x11_frame(&a).rects;
    assert_eq!(ra, vec![r(1, 0, 1), r(2, 1, 1)]);
    assert_eq!(ra, x11_frame(&b).rects);
    let mut cache = MaskCache::new();
    assert!(cache.refresh(mask_key(&ra)));
    assert!(!cache.refresh(mask_key(&x11_frame(&b).rects)));
}
