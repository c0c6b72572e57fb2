//! Decoding file contents into presentable RGBA frames: an animated GIF
//! first, any still image format after that.
use vstd::prelude::*;

verus! {

/// Frame interval used when the source gives none.
pub const DEFAULT_FRAME_DELAY_MS: u64 = 100;

/// One presentable image: straight-alpha RGBA8 pixels, row-major.
pub struct Frame {
    pub rgba: Vec<u8>,
    pub width: u32,
    pub height: u32,
}

/// One frame of an animation as the decoder hands it out, with its delay in
/// milliseconds as a fraction.
pub struct RawFrame {
    pub frame: Frame,
    pub delay_numer_ms: u32,
    pub delay_denom_ms: u32,
}

/// The result of a successful decode.
pub enum DecodedImage {
    Static(Frame),
    Animated { frames: Vec<Frame>, delay_ms: u64 },
}

/// Neither animated nor still decoding succeeded.
pub struct DecodeFailure;

/// Pixels, width and height.
pub type FrameView = (Seq<u8>, u32, u32);

/// Pixels, width, height, and the delay's numerator and denominator.
pub type RawFrameView = (Seq<u8>, u32, u32, u32, u32);

pub enum ImageView {
    Static(FrameView),
    Animated(Seq<FrameView>, u64),
}

pub open spec fn frame_view(f: Frame) -> FrameView {
    (f.rgba@, f.width, f.height)
}

pub open spec fn raw_frame_view(f: RawFrame) -> RawFrameView {
    (f.frame.rgba@, f.frame.width, f.frame.height, f.delay_numer_ms, f.delay_denom_ms)
}

pub open spec fn raw_frames_view(r: Option<Vec<RawFrame>>) -> Option<Seq<RawFrameView>> {
    match r {
        Some(v) => Some(v@.map_values(|f: RawFrame| raw_frame_view(f))),
        None => None,
    }
}

pub open spec fn frame_opt_view(r: Option<Frame>) -> Option<FrameView> {
    match r {
        Some(f) => Some(frame_view(f)),
        None => None,
    }
}

impl View for DecodedImage {
    type V = ImageView;

    open spec fn view(&self) -> ImageView {
        match self {
            DecodedImage::Static(f) => ImageView::Static(frame_view(*f)),
            DecodedImage::Animated { frames, delay_ms } => ImageView::Animated(
                frames@.map_values(|f: Frame| frame_view(f)),
                *delay_ms,
            ),
        }
    }
}

impl ImageView {
    /// How many frames are shown in turn.
    pub open spec fn frame_count(self) -> nat {
        match self {
            ImageView::Static(_) => 1,
            ImageView::Animated(frames, _) => frames.len(),
        }
    }

    /// An animation has a frame and a positive interval.
    pub open spec fn wf(self) -> bool {
        match self {
            ImageView::Static(_) => true,
            ImageView::Animated(frames, delay) => frames.len() > 0 && delay > 0,
        }
    }
}

/// The frames that the GIF decoder of the `image` crate yields for `bytes`,
/// or `None` where it rejects the stream or any frame of it.
pub uninterp spec fn gif_frames_of(bytes: Seq<u8>) -> Option<Seq<RawFrameView>>;

/// The RGBA8 image that the `image` crate decodes from `bytes`, detecting the
/// format from the contents, or `None` where it fails.
pub uninterp spec fn still_image_of(bytes: Seq<u8>) -> Option<FrameView>;

/// Relies on `image::codecs::gif::GifDecoder::new`, `AnimationDecoder::into_frames`
/// and `Frames::collect_frames`: the frames depend on the bytes alone, and any
/// failure gives `None`.
#[verifier::external_body]
fn decode_gif_frames(bytes: &[u8]) -> (r: Option<Vec<RawFrame>>)
    ensures
        raw_frames_view(r) == gif_frames_of(bytes@),
{
    let decoder = image::codecs::gif::GifDecoder::new(std::io::Cursor::new(bytes)).ok()?;
    let frames = image::AnimationDecoder::into_frames(decoder).collect_frames().ok()?;
    Some(frames.into_iter().map(|f| {
        let (n, d) = f.delay().numer_denom_ms();
        let b = f.into_buffer();
        let frame = Frame { width: b.width(), height: b.height(), rgba: b.into_raw() };
        RawFrame { frame, delay_numer_ms: n, delay_denom_ms: d }
    }).collect())
}

/// Relies on `image::load_from_memory` and `DynamicImage::to_rgba8`: the
/// image depends on the bytes alone, and any failure gives `None`.
#[verifier::external_body]
fn decode_still(bytes: &[u8]) -> (r: Option<Frame>)
    ensures
        frame_opt_view(r) == still_image_of(bytes@),
{
    let b = image::load_from_memory(bytes).ok()?.to_rgba8();
    Some(Frame { width: b.width(), height: b.height(), rgba: b.into_raw() })
}

/// The interval of a frame delay given as a fraction of milliseconds; a zero
/// interval becomes the default one.
pub open spec fn delay_ms_of(numer: u32, denom: u32) -> u64 {
    let ms = if denom == 0 {
        numer
    } else {
        numer / denom
    };
    if ms == 0 {
        DEFAULT_FRAME_DELAY_MS
    } else {
        ms as u64
    }
}

/// The animation made of decoded frames: their pixels in order, all shown for
/// the interval of the first one.
pub open spec fn animation_of(raw: Seq<RawFrameView>) -> ImageView {
    ImageView::Animated(
        raw.map_values(|f: RawFrameView| (f.0, f.1, f.2)),
        delay_ms_of(raw[0].3, raw[0].4),
    )
}

/// What decoding `bytes` gives: the animation where the GIF decoder yields at
/// least one frame, else the still image, else nothing.
pub open spec fn decoded_of(bytes: Seq<u8>) -> Option<ImageView> {
    match gif_frames_of(bytes) {
        Some(raw) if raw.len() > 0 => Some(animation_of(raw)),
        _ => match still_image_of(bytes) {
            Some(f) => Some(ImageView::Static(f)),
            None => None,
        },
    }
}

/// The interval in milliseconds for a frame delay of `numer / denom`
/// milliseconds; never zero.
pub fn frame_delay_ms(numer: u32, denom: u32) -> (r: u64)
    ensures
        r == delay_ms_of(numer, denom),
        r > 0,
{
    let ms = if denom == 0 {
        numer
    } else {
        numer / denom
    };
    if ms == 0 {
        DEFAULT_FRAME_DELAY_MS
    } else {
        ms as u64
    }
}

/// Turns decoded frames into an animation; `None` where there are none.
pub fn animation_from_frames(raw: Vec<RawFrame>) -> (r: Option<DecodedImage>)
    ensures
        raw@.len() == 0 ==> r is None,
        raw@.len() > 0 ==> r is Some && r->0@ == animation_of(
            raw@.map_values(|f: RawFrame| raw_frame_view(f)),
        ),
{
    if raw.len() == 0 {
        return None;
    }
    let ghost all = raw@;
    let ghost views = raw@.map_values(|f: RawFrame| raw_frame_view(f));
    let delay_ms = frame_delay_ms(raw[0].delay_numer_ms, raw[0].delay_denom_ms);
    let mut rest = raw;
    let mut frames: Vec<Frame> = Vec::new();
    let ghost mut n: int = 0;
    while rest.len() > 0
        invariant
            0 <= n <= all.len(),
            rest@ == all.subrange(n, all.len() as int),
            frames@.len() == n,
            forall|k: int| 0 <= k < n ==> #[trigger] frames@[k] == all[k].frame,
        decreases rest.len(),
    {
        let x = rest.remove(0);
        proof {
            assert(x == all[n]);
            assert(rest@ =~= all.subrange(n + 1, all.len() as int));
        }
        frames.push(x.frame);
        proof {
            n = n + 1;
        }
    }
    let r = DecodedImage::Animated { frames, delay_ms };
    assert(r@ == animation_of(views)) by {
        assert(frames@.map_values(|f: Frame| frame_view(f)) =~= views.map_values(
            |f: RawFrameView| (f.0, f.1, f.2),
        ));
    }
    Some(r)
}

/// Decodes `bytes` as an animated GIF; `None` where the decoder fails on the
/// stream or on any frame, or yields no frame.
pub fn load_animated_gif(bytes: &[u8]) -> (r: Option<DecodedImage>)
    ensures
        match gif_frames_of(bytes@) {
            Some(raw) if raw.len() > 0 => r is Some && r->0@ == animation_of(raw),
            _ => r is None,
        },
{
    match decode_gif_frames(bytes) {
        Some(raw) => animation_from_frames(raw),
        None => None,
    }
}

/// Decodes `bytes` as a still image of any supported format, detected from
/// the contents.
pub fn load_image(bytes: &[u8]) -> (r: Option<Frame>)
    ensures
        frame_opt_view(r) == still_image_of(bytes@),
{
    decode_still(bytes)
}

/// Decodes file contents: as an animation first, and where that fails as a
/// still image.
pub fn decode_image(bytes: &[u8]) -> (r: Result<DecodedImage, DecodeFailure>)
    ensures
        match r {
            Ok(d) => decoded_of(bytes@) == Some(d@) && d@.wf(),
            Err(_) => decoded_of(bytes@) is None,
        },
{
    match load_animated_gif(bytes) {
        Some(d) => Ok(d),
        None => match load_image(bytes) {
            Some(f) => Ok(DecodedImage::Static(f)),
            None => Err(DecodeFailure),
        },
    }
}

} // verus!
