use image_viewer::loader::{DecodedImage, Frame};
use image_viewer::playback::ImageState;

fn frame(tag: u8) -> Frame {
    Frame { rgba: vec![tag, 0, 0, 255], width: 1, height: 1 }
}

fn animated(k: u8, delay: u64, start: u64) -> ImageState {
    ImageState {
        image: Some(DecodedImage::Animated { frames: (0..k).map(frame).collect(), delay_ms: delay }),
        current_frame: 0,
        last_frame_update: start,
        frame_delay: delay,
        current_file_path: "/p/a.gif".to_string(),
    }
}

#[test]
fn static_image_never_advances() {
    let mut s = ImageState::new("/p/a.png".to_string(), 10);
    s.image = Some(DecodedImage::Static(frame(7)));
    for now in [10u64, 110, 1_000, 1_000_000, 5] {
        assert!(!s.advance_frame_if_needed(now));
        assert_eq!(s.current_frame, 0);
        assert_eq!(s.last_frame_update, 10);
        assert_eq!(s.time_until_next_frame(now), None);
    }
    assert_eq!(s.displayed_frame().unwrap().rgba[0], 7);
}

#[test]
fn nothing_loaded_never_advances() {
    let mut s = ImageState::new("/p/bad.gif".to_string(), 0);
    assert!(!s.advance_frame_if_needed(500));
    assert_eq!(s.current_frame, 0);
    assert_eq!(s.time_until_next_frame(500), None);
    assert!(s.displayed_frame().is_none());
}

#[test]
fn frames_cycle_with_period_k() {
    let (k, d, start) = (3u8, 50u64, 1_000u64);
    let mut s = animated(k, d, start);
    let mut seen = Vec::new();
    for i in 1..=7u64 {
        assert!(s.advance_frame_if_needed(start + i * d));
        seen.push(s.current_frame);
    }
    assert_eq!(seen, vec![1, 2, 0, 1, 2, 0, 1]);
    assert_eq!(s.displayed_frame().unwrap().rgba[0], 1);
}

#[test]
fn frame_waits_for_its_interval() {
    let mut s = animated(2, 100, 1_000);
    assert!(!s.advance_frame_if_needed(1_099));
    assert_eq!(s.current_frame, 0);
    assert_eq!(s.time_until_next_frame(1_040), Some(60));
    assert_eq!(s.time_until_next_frame(900), Some(100));
    assert!(s.advance_frame_if_needed(1_100));
    assert_eq!(s.current_frame, 1);
    assert_eq!(s.last_frame_update, 1_100);
    assert_eq!(s.time_until_next_frame(1_100), Some(100));
    assert_eq!(s.time_until_next_frame(1_500), Some(0));
}

#[test]
fn failed_load_shows_nothing() {
    let mut s = animated(2, 40, 0);
    s.current_frame = 1;
    s.load_from_path("/p/broken.gif".to_string(), Some(b"GIF89a garbage".as_slice()), 77);
    assert!(s.image.is_none());
    assert_eq!(s.current_frame, 0);
    assert_eq!(s.last_frame_update, 77);
    assert_eq!(s.current_file_path, "/p/broken.gif");
    s.load_from_path("/p/missing.png".to_string(), None, 80);
    assert!(s.image.is_none());
}
