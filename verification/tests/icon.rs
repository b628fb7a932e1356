use click_through::icon::tray_icon_rgba;
use click_through::layered::{bitmap_outdated, dib_extent};

#[test]
fn icon_is_a_blue_disc() {
    let rgba = tray_icon_rgba();
    assert_eq!(rgba.len(), 32 * 32 * 4);
    let px = |x: usize, y: usize| &rgba[(y * 32 + x) * 4..][..4];
    assert_eq!(px(16, 16), &[0x6e, 0xc6, 0xff, 0xff]);
    assert_eq!(px(0, 0), &[0, 0, 0, 0]);
    assert_eq!(px(31, 31), &[0, 0, 0, 0]);
    assert_eq!(px(2, 15), &[0x6e, 0xc6, 0xff, 0xff]);
    assert_eq!(px(1, 15), &[0, 0, 0, 0]);
}

#[test]
fn icon_matches_float_disc() {
    let rgba = tray_icon_rgba();
    for y in 0..32usize {
        for x in 0..32usize {
            let (dx, dy) = (x as f32 - 15.5, y as f32 - 15.5);
            let inside = dx * dx + dy * dy < 14.0 * 14.0;
            let want: [u8; 4] = if inside { [0x6e, 0xc6, 0xff, 0xff] } else { [0; 4] };
            assert_eq!(&rgba[(y * 32 + x) * 4..][..4], &want, "pixel {x},{y}");
        }
    }
}

#[test]
fn bitmap_made_anew_only_when_needed() {
    assert!(!bitmap_outdated((200, 100), true, 200, 100));
    assert!(bitmap_outdated((200, 100), false, 200, 100));
    assert!(bitmap_outdated((200, 100), true, 201, 100));
    assert!(bitmap_outdated((0, 0), false, 200, 100));
}

#[test]
fn bitmap_rows_run_top_down() {
    assert_eq!(dib_extent(200, 100), (200, -100));
    assert_eq!(dib_extent(1, 0), (1, 0));
}
