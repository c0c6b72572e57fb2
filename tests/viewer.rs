use image_viewer::navigation::FileEntry;
use image_viewer::viewer::ImageViewer;

fn entry(name: &str) -> FileEntry {
    FileEntry { path: format!("/p/{}", name), name: name.to_string() }
}

fn png_bytes() -> Vec<u8> {
    let buffer = image::RgbaImage::from_pixel(4, 2, image::Rgba([9, 9, 9, 255]));
    let mut out = std::io::Cursor::new(Vec::new());
    image::DynamicImage::ImageRgba8(buffer).write_to(&mut out, image::ImageFormat::Png).unwrap();
    out.into_inner()
}

#[test]
fn navigation_defers_reload_to_next_step() {
    let entries = vec![entry("b10.png"), entry("b2.png"), entry("notes.md")];
    let mut v = ImageViewer::new_from_path("/p/b2.png", entries, 0);
    assert_eq!(v.pending_load().as_deref(), Some("/p/b2.png"));
    let bytes = png_bytes();
    v.load_current_image(Some(&bytes), 5);
    assert!(!v.pending_navigation);
    assert_eq!(v.pending_load(), None);
    assert_eq!(v.image.current_file_path, "/p/b2.png");
    assert!(v.image.image.is_some());

    v.handle_input(false, true);
    assert_eq!(v.pending_load().as_deref(), Some("/p/b10.png"));
    assert_eq!(v.image.current_file_path, "/p/b2.png");
    v.load_current_image(None, 9);
    assert_eq!(v.image.current_file_path, "/p/b10.png");
    assert!(v.image.image.is_none());
    assert_eq!(v.update(20), None);
}

#[test]
fn previous_and_next_in_one_tick_cancel_out() {
    let entries = vec![entry("a.png"), entry("b.png"), entry("c.png")];
    let mut v = ImageViewer::new_from_path("/p/a.png", entries, 0);
    v.load_current_image(None, 1);
    v.handle_input(true, true);
    assert_eq!(v.navigation.current_index, 0);
    assert!(v.pending_navigation);
    v.handle_input(true, false);
    assert_eq!(v.navigation.current_index, 2);
}

#[test]
fn empty_directory_has_nothing_to_load() {
    let mut v = ImageViewer::new_from_path("/p", vec![entry("readme.txt")], 0);
    assert!(v.navigation.is_empty());
    assert!(!v.pending_navigation);
    assert_eq!(v.pending_load(), None);
    v.handle_input(true, true);
    assert!(!v.pending_navigation);
    v.load_current_image(None, 3);
    assert!(v.image.image.is_none());
    assert_eq!(v.update(10), None);
}

fn gif_bytes(frames: u32, delay_ms: u32) -> Vec<u8> {
    let mut out = Vec::new();
    {
        let mut encoder = image::codecs::gif::GifEncoder::new(&mut out);
        for i in 0..frames {
            let buffer = image::RgbaImage::from_pixel(2, 2, image::Rgba([i as u8, 0, 0, 255]));
            let delay = image::Delay::from_numer_denom_ms(delay_ms, 1);
            encoder.encode_frame(image::Frame::from_parts(buffer, 0, 0, delay)).unwrap();
        }
    }
    out
}

#[test]
fn animation_ticks_report_next_wake() {
    let mut v = ImageViewer::new_from_path("/p/anim.gif", vec![entry("anim.gif")], 0);
    let bytes = gif_bytes(2, 60);
    v.load_current_image(Some(&bytes), 1_000);
    assert_eq!(v.image.frame_delay, 60);
    assert_eq!(v.update(1_020), Some(40));
    assert_eq!(v.image.current_frame, 0);
    assert_eq!(v.update(1_060), Some(60));
    assert_eq!(v.image.current_frame, 1);
    assert_eq!(v.update(1_130), Some(60));
    assert_eq!(v.image.current_frame, 0);
    assert_eq!(v.image.last_frame_update, 1_130);
}
