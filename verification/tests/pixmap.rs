use click_through::pixmap::{alpha_at, frame_fits, whole_pixels, whole_rows};
use resvg::tiny_skia::Pixmap;

fn sample() -> Pixmap {
    let mut p = Pixmap::new(4, 3).unwrap();
    let data = p.data_mut();
    // Pixel (2, 1) has alpha 77; pixel (0, 2) alpha 200.
    data[4 * (4 + 2) + 3] = 77;
    data[4 * (8 + 0) + 3] = 200;
    p
}

#[test]
fn alpha_inside_frame() {
    let p = sample();
    assert_eq!(alpha_at(Some(&p), 2, 1), 77);
    assert_eq!(alpha_at(Some(&p), 0, 2), 200);
    assert_eq!(alpha_at(Some(&p), 1, 1), 0);
}

#[test]
fn alpha_outside_frame_is_zero() {
    let p = sample();
    assert_eq!(alpha_at(Some(&p), -1, 1), 0);
    assert_eq!(alpha_at(Some(&p), 2, -1), 0);
    // x beyond the width would reach the next row's pixel in tiny-skia.
    assert_eq!(alpha_at(Some(&p), 6, 0), 0);
    assert_eq!(alpha_at(Some(&p), 4, 1), 0);
    assert_eq!(alpha_at(Some(&p), 0, 3), 0);
    assert_eq!(alpha_at(Some(&p), i64::MAX, i64::MIN), 0);
}

#[test]
fn alpha_without_frame_is_zero() {
    assert_eq!(alpha_at(None, 0, 0), 0);
}

#[test]
fn frame_fits_only_its_own_size() {
    let p = sample();
    assert!(frame_fits(&p, 4, 3));
    assert!(!frame_fits(&p, 3, 4));
    assert!(!frame_fits(&p, 4, 4));
}

#[test]
fn whole_pixels_and_rows_of_a_pixmap() {
    let p = sample();
    assert!(whole_pixels(&p));
    assert_eq!(whole_rows(&p), 3);
}
