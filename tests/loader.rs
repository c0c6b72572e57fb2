use image_viewer::loader::{
    animation_from_frames, decode_image, frame_delay_ms, load_animated_gif, load_image,
    DecodedImage, Frame, RawFrame, DEFAULT_FRAME_DELAY_MS,
};

/// A 1×1 GIF whose only frame declares a delay of zero.
const ONE_PIXEL_GIF: [u8; 43] = [
    0x47, 0x49, 0x46, 0x38, 0x39, 0x61, 0x01, 0x00, 0x01, 0x00, 0x80, 0x00, 0x00, 0xff, 0xff,
    0xff, 0x00, 0x00, 0x00, 0x21, 0xf9, 0x04, 0x01, 0x00, 0x00, 0x00, 0x00, 0x2c, 0x00, 0x00,
    0x00, 0x00, 0x01, 0x00, 0x01, 0x00, 0x00, 0x02, 0x02, 0x44, 0x01, 0x00, 0x3b,
];

fn gif_bytes(frames: u32, delay_ms: u32) -> Vec<u8> {
    let mut out = Vec::new();
    {
        let mut encoder = image::codecs::gif::GifEncoder::new(&mut out);
        for i in 0..frames {
            let px = image::Rgba([(i * 40) as u8, 0, 0, 255]);
            let buffer = image::RgbaImage::from_pixel(3, 2, px);
            let delay = image::Delay::from_numer_denom_ms(delay_ms, 1);
            encoder.encode_frame(image::Frame::from_parts(buffer, 0, 0, delay)).unwrap();
        }
    }
    out
}

fn png_bytes(width: u32, height: u32) -> Vec<u8> {
    let buffer = image::RgbaImage::from_pixel(width, height, image::Rgba([1, 2, 3, 4]));
    let mut out = std::io::Cursor::new(Vec::new());
    image::DynamicImage::ImageRgba8(buffer).write_to(&mut out, image::ImageFormat::Png).unwrap();
    out.into_inner()
}

fn raw(delay_numer_ms: u32, delay_denom_ms: u32) -> RawFrame {
    RawFrame {
        frame: Frame { rgba: vec![0, 0, 0, 255], width: 1, height: 1 },
        delay_numer_ms,
        delay_denom_ms,
    }
}

#[test]
fn zero_delay_becomes_default_interval() {
    assert_eq!(DEFAULT_FRAME_DELAY_MS, 100);
    assert_eq!(frame_delay_ms(0, 1), 100);
    assert_eq!(frame_delay_ms(0, 0), 100);
    assert_eq!(frame_delay_ms(3, 4), 100);
    assert_eq!(frame_delay_ms(50, 1), 50);
    assert_eq!(frame_delay_ms(15, 2), 7);
    assert_eq!(frame_delay_ms(70, 0), 70);
}

#[test]
fn zero_delay_gif_plays_at_default_interval() {
    match decode_image(&ONE_PIXEL_GIF) {
        Ok(DecodedImage::Animated { frames, delay_ms }) => {
            assert_eq!(frames.len(), 1);
            assert_eq!(delay_ms, 100);
            assert_eq!((frames[0].width, frames[0].height), (1, 1));
            assert_eq!(frames[0].rgba.len(), 4);
        }
        _ => panic!("expected an animation"),
    }
}

#[test]
fn animated_gif_keeps_frames_and_first_delay() {
    let bytes = gif_bytes(3, 40);
    match load_animated_gif(&bytes) {
        Some(DecodedImage::Animated { frames, delay_ms }) => {
            assert_eq!(frames.len(), 3);
            assert_eq!(delay_ms, 40);
            for f in &frames {
                assert_eq!((f.width, f.height), (3, 2));
                assert_eq!(f.rgba.len(), 3 * 2 * 4);
            }
            assert_eq!(frames[1].rgba[0], 40);
            assert_eq!(frames[2].rgba[0], 80);
        }
        _ => panic!("expected an animation"),
    }
}

#[test]
fn still_image_decodes_from_contents() {
    let bytes = png_bytes(2, 3);
    let frame = load_image(&bytes).unwrap();
    assert_eq!((frame.width, frame.height), (2, 3));
    assert_eq!(frame.rgba, [1u8, 2, 3, 4].repeat(6));
    assert!(load_animated_gif(&bytes).is_none());
    match decode_image(&bytes) {
        Ok(DecodedImage::Static(f)) => assert_eq!((f.width, f.height), (2, 3)),
        _ => panic!("expected a still image"),
    }
}

#[test]
fn corrupt_gif_is_a_decode_failure() {
    let mut bytes = b"GIF89a".to_vec();
    bytes.extend_from_slice(&[0xff, 0x13, 0x00, 0x07, 0x01]);
    assert!(load_animated_gif(&bytes).is_none());
    assert!(load_image(&bytes).is_none());
    assert!(decode_image(&bytes).is_err());
    assert!(decode_image(&[]).is_err());
    assert!(decode_image(b"not an image at all").is_err());
}

#[test]
fn truncated_animation_falls_back_to_still_decode() {
    let bytes = gif_bytes(3, 40);
    let cut = &bytes[..bytes.len() - 12];
    assert!(load_animated_gif(cut).is_none());
    match decode_image(cut) {
        Ok(DecodedImage::Static(f)) => assert_eq!((f.width, f.height), (3, 2)),
        _ => panic!("expected the still fallback"),
    }
}

#[test]
fn no_frames_make_no_animation() {
    assert!(animation_from_frames(Vec::new()).is_none());
}

#[test]
fn animation_takes_interval_of_first_frame() {
    match animation_from_frames(vec![raw(0, 1), raw(30, 1)]) {
        Some(DecodedImage::Animated { frames, delay_ms }) => {
            assert_eq!(frames.len(), 2);
            assert_eq!(delay_ms, 100);
        }
        _ => panic!("expected an animation"),
    }
    match animation_from_frames(vec![raw(30, 1), raw(0, 1)]) {
        Some(DecodedImage::Animated { delay_ms, .. }) => assert_eq!(delay_ms, 30),
        _ => panic!("expected an animation"),
    }
}
