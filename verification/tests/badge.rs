use koala_desktop::icons::{encode_png, IconCache};
use koala_desktop::channel_badge::{
    badge_width, blend_onto_badge, decode_and_resize, mask_and_premultiply, recolor_premultiplied, star_hit,
    star_x, ChannelBadge, VISIBLE_MS,
};

#[test]
fn star_geometry() {
    // 6 + 28 + 8 + text + 8.
    assert_eq!(star_x(100), 150);
    assert_eq!(star_x(-5), 50);
    assert_eq!(badge_width(100), 176);
    assert_eq!(badge_width(0), 80);
    assert!(star_hit(100, 1, 150, 9));
    assert!(!star_hit(100, 3, 150, 9));
    assert!(!star_hit(100, 1, 168, 9));
    assert!(!star_hit(100, 1, 150, 27));
}

#[test]
fn badge_visibility_timer_and_clicks() {
    let mut b = ChannelBadge::new();
    assert!(!b.should_be_visible(0));
    b.set_channel("Chaîne".to_string(), vec![1, 2, 3], false, 1000);
    assert!(b.dirty);
    assert!(b.should_be_visible(1000 + VISIBLE_MS - 1));
    assert!(!b.should_be_visible(1000 + VISIBLE_MS));
    b.bump(6000);
    assert!(b.should_be_visible(7000));
    assert!(b.show());
    assert!(!b.show());
    assert_eq!(b.place(56, 48, 100), 176);
    assert!(!b.dirty);
    assert_eq!(b.text_width, 100);
    assert!(b.poll_star_click(&vec![(1, 151, 10)]));
    assert!(!b.poll_star_click(&vec![(1, 10, 10), (2, 151, 10)]));
    assert!(b.hide_window());
    assert!(!b.hide_window());
    b.set_channel("Chaîne".to_string(), vec![1, 2, 3], true, 9000);
    assert!(!b.dirty);
    assert!(b.is_favorite);
}

#[test]
fn pixel_blend_and_recolor() {
    // One opaque red pixel and one transparent pixel.
    let rgba = vec![255u8, 0, 0, 255, 0, 0, 0, 0];
    let bgra = blend_onto_badge(&rgba, 1);
    assert_eq!(&bgra[..4], &[0, 0, 255, 255]);
    let rec = recolor_premultiplied(vec![9u8, 9, 9, 128, 1, 2, 3, 0, 7], 255, 255, 0);
    assert_eq!(rec, vec![128, 128, 0, 128, 1, 2, 3, 0, 7]);
}

#[test]
fn avatar_mask_corners_are_transparent() {
    let size = 4u32;
    let raw = vec![200u8; (size * size * 4) as usize];
    let out = mask_and_premultiply(raw, size);
    assert_eq!(out.len(), 64);
    assert_eq!(out[3], 0);
    let centre = ((1 * size + 1) * 4) as usize;
    assert_eq!(out[centre + 3], 200);
}

#[test]
fn decode_and_resize_real_png() {
    let mut img = image::RgbaImage::new(8, 8);
    for p in img.pixels_mut() {
        *p = image::Rgba([10, 20, 30, 255]);
    }
    let mut bytes: Vec<u8> = Vec::new();
    img.write_to(&mut std::io::Cursor::new(&mut bytes), image::ImageFormat::Png).unwrap();
    let out = decode_and_resize(&bytes, 4).expect("decodes");
    assert_eq!(out.len(), 4 * 4 * 4);
    let centre = ((1 * 4 + 1) * 4) as usize;
    assert_eq!(&out[centre..centre + 4], &[10, 20, 30, 255]);
    assert_eq!(out[3], 0);
    assert!(decode_and_resize(b"not an image", 4).is_none());
}

#[test]
fn png_encoding_and_icon_cache() {
    let png = encode_png(&[255, 0, 0, 255], 1).unwrap();
    assert_eq!(&png[..8], &[0x89, b'P', b'N', b'G', 0x0d, 0x0a, 0x1a, 0x0a]);
    let back = image::load_from_memory(&png).unwrap().to_rgba8().into_raw();
    assert_eq!(back, vec![255, 0, 0, 255]);
    assert_eq!(encode_png(&[1, 2, 3], 1), None);
    assert_eq!(encode_png(&[], 0), None);
    let mut c = IconCache::new();
    assert_eq!(c.get((1, 16, 0xffffff)), None);
    c.insert((1, 16, 0xffffff), png.clone());
    c.insert((2, 16, 0xffffff), vec![9]);
    assert_eq!(c.get((1, 16, 0xffffff)), Some(png));
    assert_eq!(c.get((2, 16, 0xffffff)), Some(vec![9]));
}
