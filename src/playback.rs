//! What is on screen: the decoded image of one file, the animation frame
//! shown, and when that frame was last changed. Times are milliseconds on the
//! host's monotonic clock.
use crate::loader::{decode_image, decoded_of, DecodedImage, Frame, DEFAULT_FRAME_DELAY_MS};
use vstd::prelude::*;

verus! {

pub struct ImageState {
    /// The decoded image, or `None` where loading failed.
    pub image: Option<DecodedImage>,
    pub current_frame: usize,
    pub last_frame_update: u64,
    pub frame_delay: u64,
    pub current_file_path: String,
}

/// Milliseconds from `last` to `now`; none where the clock reads earlier.
pub open spec fn elapsed_ms(last: int, now: int) -> int {
    if now >= last {
        now - last
    } else {
        0
    }
}

/// The frame index and last-change time after one advance at `now` of an
/// animation of `k` frames with interval `delay` (no animation where `k` is 0).
pub open spec fn advance_model(frame: int, last: int, delay: int, k: int, now: int) -> (int, int) {
    if k > 0 && elapsed_ms(last, now) >= delay {
        ((frame + 1) % k, now)
    } else {
        (frame, last)
    }
}

/// Milliseconds until the next frame is due; zero where it is due already.
pub open spec fn remaining_ms(last: int, delay: int, now: int) -> int {
    if elapsed_ms(last, now) >= delay {
        0
    } else {
        delay - elapsed_ms(last, now)
    }
}

/// The state after `n` advances made every `delay` milliseconds from `last`.
pub open spec fn advance_every(frame: int, last: int, delay: int, k: int, n: nat) -> (int, int)
    decreases n,
{
    if n == 0 {
        (frame, last)
    } else {
        let (f, t) = advance_every(frame, last, delay, k, (n - 1) as nat);
        advance_model(f, t, delay, k, t + delay)
    }
}

proof fn lemma_advance_every(frame: int, last: int, delay: int, k: int, n: nat)
    requires
        0 <= frame < k,
        delay > 0,
    ensures
        advance_every(frame, last, delay, k, n) == ((frame + n) % k, last + n * delay),
    decreases n,
{
    if n == 0 {
        vstd::arithmetic::div_mod::lemma_small_mod(frame as nat, k as nat);
    } else {
        lemma_advance_every(frame, last, delay, k, (n - 1) as nat);
        vstd::arithmetic::div_mod::lemma_add_mod_noop_right(1, frame + n - 1, k);
        assert(last + (n - 1) * delay + delay == last + n * delay) by (nonlinear_arith);
    }
}

/// An animation of `k` frames with interval `delay`, advanced once every
/// `delay` milliseconds, shows its frames in turn and wraps after the last:
/// after `n` advances it is `n` frames further on, and `k` advances more bring
/// it back to the same frame.
pub proof fn lemma_frames_cycle(frame: int, last: int, delay: int, k: int, n: nat)
    requires
        0 <= frame < k,
        delay > 0,
    ensures
        advance_every(frame, last, delay, k, n).0 == (frame + n) % k,
        advance_every(frame, last, delay, k, n + k as nat).0 == advance_every(frame, last, delay, k, n).0,
{
    lemma_advance_every(frame, last, delay, k, n);
    lemma_advance_every(frame, last, delay, k, n + k as nat);
    vstd::arithmetic::div_mod::lemma_mod_add_multiples_vanish(frame + n, k);
}

impl ImageState {
    /// Number of animation frames; 0 for a still image or none.
    pub open spec fn frame_count(&self) -> int {
        match self.image {
            Some(DecodedImage::Animated { frames, .. }) => frames@.len() as int,
            _ => 0,
        }
    }

    /// The frame index points into the animation, or is 0 where there is
    /// none, and the interval is positive.
    pub open spec fn wf(&self) -> bool {
        &&& self.frame_delay > 0
        &&& self.frame_count() > 0 ==> self.current_frame < self.frame_count()
        &&& self.frame_count() == 0 ==> self.current_frame == 0
        &&& self.image matches Some(d) ==> d@.wf()
    }

    /// An empty state for `path`: nothing loaded yet.
    pub fn new(path: String, now_ms: u64) -> (r: ImageState)
        ensures
            r.wf(),
            r.image is None,
            r.current_frame == 0,
            r.last_frame_update == now_ms,
            r.frame_delay == DEFAULT_FRAME_DELAY_MS,
            r.current_file_path == path,
    {
        ImageState {
            image: None,
            current_frame: 0,
            last_frame_update: now_ms,
            frame_delay: DEFAULT_FRAME_DELAY_MS,
            current_file_path: path,
        }
    }

    /// Replaces what is shown by the contents of the file at `path` (`None`
    /// where it could not be read): decoded as an animation first, else as a
    /// still image, else nothing. The animation restarts at its first frame.
    pub fn load_from_path(&mut self, path: String, contents: Option<&[u8]>, now_ms: u64)
        requires
            old(self).wf(),
        ensures
            final(self).wf(),
            final(self).current_file_path == path,
            final(self).current_frame == 0,
            final(self).last_frame_update == now_ms,
            match contents {
                Some(b) => match decoded_of(b@) {
                    Some(v) => final(self).image matches Some(d) && d@ == v,
                    None => final(self).image is None,
                },
                None => final(self).image is None,
            },
            match final(self).image {
                Some(DecodedImage::Animated { delay_ms, .. }) => final(self).frame_delay == delay_ms,
                _ => final(self).frame_delay == old(self).frame_delay,
            },
    {
        self.current_file_path = path;
        self.image = None;
        self.current_frame = 0;
        self.last_frame_update = now_ms;
        if let Some(bytes) = contents {
            if let Ok(d) = decode_image(bytes) {
                if let DecodedImage::Animated { delay_ms, .. } = &d {
                    self.frame_delay = *delay_ms;
                }
                self.image = Some(d);
            }
        }
    }

    /// Moves to the next frame, wrapping after the last, where an animation
    /// is shown and its interval has passed since the last change; returns
    /// whether the frame changed. A still image or none never changes.
    pub fn advance_frame_if_needed(&mut self, now_ms: u64) -> (r: bool)
        requires
            old(self).wf(),
        ensures
            final(self).wf(),
            final(self).image == old(self).image,
            final(self).frame_delay == old(self).frame_delay,
            final(self).current_file_path == old(self).current_file_path,
            r == (old(self).frame_count() > 0 && elapsed_ms(
                old(self).last_frame_update as int,
                now_ms as int,
            ) >= old(self).frame_delay),
            (final(self).current_frame as int, final(self).last_frame_update as int)
                == advance_model(
                old(self).current_frame as int,
                old(self).last_frame_update as int,
                old(self).frame_delay as int,
                old(self).frame_count(),
                now_ms as int,
            ),
    {
        let k = match &self.image {
            Some(DecodedImage::Animated { frames, .. }) => frames.len(),
            _ => 0,
        };
        if k == 0 {
            return false;
        }
        let elapsed = if now_ms >= self.last_frame_update {
            now_ms - self.last_frame_update
        } else {
            0
        };
        if elapsed >= self.frame_delay {
            self.current_frame = (self.current_frame + 1) % k;
            self.last_frame_update = now_ms;
            true
        } else {
            false
        }
    }

    /// Milliseconds until the next frame of the animation is due (zero where
    /// it is due already); `None` where no animation is shown, as nothing then
    /// needs a periodic repaint.
    pub fn time_until_next_frame(&self, now_ms: u64) -> (r: Option<u64>)
        requires
            self.wf(),
        ensures
            self.frame_count() == 0 ==> r is None,
            self.frame_count() > 0 ==> r == Some(
                remaining_ms(self.last_frame_update as int, self.frame_delay as int, now_ms as int)
                    as u64,
            ),
    {
        let animated = match &self.image {
            Some(DecodedImage::Animated { .. }) => true,
            _ => false,
        };
        if !animated {
            return None;
        }
        let elapsed = if now_ms >= self.last_frame_update {
            now_ms - self.last_frame_update
        } else {
            0
        };
        if elapsed >= self.frame_delay {
            Some(0)
        } else {
            Some(self.frame_delay - elapsed)
        }
    }

    /// The frame to draw now: the animation's current frame or the still
    /// image; `None` where nothing could be loaded.
    pub fn displayed_frame(&self) -> (r: Option<&Frame>)
        requires
            self.wf(),
        ensures
            match self.image {
                Some(DecodedImage::Static(f)) => r == Some(&f),
                Some(DecodedImage::Animated { frames, .. }) => r == Some(
                    &frames@[self.current_frame as int],
                ),
                None => r is None,
            },
    {
        match &self.image {
            Some(DecodedImage::Static(f)) => Some(f),
            Some(DecodedImage::Animated { frames, .. }) => Some(&frames[self.current_frame]),
            None => None,
        }
    }
}

} // verus!
