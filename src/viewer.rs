//! The viewer session: navigation plus what is shown, driven once per tick.
//!
//! A tick applies the keys pressed, then, where the cursor moved, the host
//! reads the file that [`ImageViewer::pending_load`] names and hands its
//! contents to [`ImageViewer::load_current_image`], and last
//! [`ImageViewer::update`] advances the animation before the frame is drawn.
//! A navigation thus never reloads from inside the handling of input.
use crate::loader::decoded_of;
use crate::navigation::{next_index, previous_index, FileEntry, Navigation};
use crate::playback::{advance_model, remaining_ms, ImageState};
use vstd::prelude::*;

verus! {

pub struct ImageViewer {
    pub navigation: Navigation,
    pub image: ImageState,
    /// The cursor moved (or nothing was loaded yet) and the image under it
    /// still has to be loaded.
    pub pending_navigation: bool,
}

impl ImageViewer {
    /// A pending load always has a file to load.
    pub open spec fn wf(&self) -> bool {
        &&& self.navigation.wf()
        &&& self.image.wf()
        &&& self.pending_navigation ==> self.navigation.file_list@.len() > 0
    }

    /// Opens a session on `path` among the regular files of its directory
    /// (`entries`); the image under the cursor is left to load.
    pub fn new_from_path(path: &str, entries: Vec<FileEntry>, now_ms: u64) -> (r: ImageViewer)
        ensures
            r.wf(),
            r.navigation.file_list@.to_multiset()
                == crate::navigation::supported_entries(entries@).to_multiset(),
            crate::navigation::sorted_by_name(r.navigation.file_list@),
            crate::navigation::lists_path(r.navigation.file_list@, path@)
                ==> r.navigation.file_list@[r.navigation.current_index as int].path@ == path@
                && forall|k: int|
                0 <= k < r.navigation.current_index ==> #[trigger] r.navigation.file_list@[k].path@
                    != path@,
            !crate::navigation::lists_path(r.navigation.file_list@, path@)
                ==> r.navigation.current_index == 0,
            r.image.image is None,
            r.image.current_file_path@ == path@,
            r.image.last_frame_update == now_ms,
            r.pending_navigation == (r.navigation.file_list@.len() > 0),
    {
        let navigation = Navigation::from_path(path, entries);
        let pending_navigation = !navigation.is_empty();
        let image = ImageState::new(path.to_owned(), now_ms);
        ImageViewer { navigation, image, pending_navigation }
    }

    /// The path whose contents [`Self::load_current_image`] needs, where a
    /// load is pending.
    pub fn pending_load(&self) -> (r: Option<String>)
        requires
            self.wf(),
        ensures
            self.pending_navigation ==> r == Some(
                self.navigation.file_list@[self.navigation.current_index as int].path,
            ),
            !self.pending_navigation ==> r is None,
    {
        if !self.pending_navigation {
            return None;
        }
        match self.navigation.current_path() {
            Some(p) => Some(p.clone()),
            None => None,
        }
    }

    /// Shows the file under the cursor, given its contents (`None` where it
    /// could not be read), and clears the pending load. Does nothing on an
    /// empty list.
    pub fn load_current_image(&mut self, contents: Option<&[u8]>, now_ms: u64)
        requires
            old(self).wf(),
        ensures
            final(self).wf(),
            final(self).navigation == old(self).navigation,
            old(self).navigation.file_list@.len() == 0 ==> *final(self) == *old(self),
            old(self).navigation.file_list@.len() > 0 ==> {
                &&& !final(self).pending_navigation
                &&& final(self).image.current_file_path == old(
                    self,
                ).navigation.file_list@[old(self).navigation.current_index as int].path
                &&& final(self).image.current_frame == 0
                &&& final(self).image.last_frame_update == now_ms
                &&& match contents {
                    Some(b) => match decoded_of(b@) {
                        Some(v) => final(self).image.image matches Some(d) && d@ == v,
                        None => final(self).image.image is None,
                    },
                    None => final(self).image.image is None,
                }
            },
    {
        let path = match self.navigation.current_path() {
            Some(p) => p.clone(),
            None => return ,
        };
        self.image.load_from_path(path, contents, now_ms);
        self.pending_navigation = false;
    }

    /// Steps the cursor back and marks the new image for loading; does
    /// nothing on an empty list.
    pub fn navigate_previous(&mut self)
        requires
            old(self).wf(),
        ensures
            final(self).wf(),
            final(self).image == old(self).image,
            final(self).navigation.file_list == old(self).navigation.file_list,
            old(self).navigation.file_list@.len() == 0 ==> *final(self) == *old(self),
            old(self).navigation.file_list@.len() > 0 ==> final(self).pending_navigation
                && final(self).navigation.current_index == previous_index(
                old(self).navigation.current_index as int,
                old(self).navigation.file_list@.len() as int,
            ),
    {
        if self.navigation.is_empty() {
            return;
        }
        self.navigation.navigate_previous();
        self.pending_navigation = true;
    }

    /// Steps the cursor forward and marks the new image for loading; does
    /// nothing on an empty list.
    pub fn navigate_next(&mut self)
        requires
            old(self).wf(),
        ensures
            final(self).wf(),
            final(self).image == old(self).image,
            final(self).navigation.file_list == old(self).navigation.file_list,
            old(self).navigation.file_list@.len() == 0 ==> *final(self) == *old(self),
            old(self).navigation.file_list@.len() > 0 ==> final(self).pending_navigation
                && final(self).navigation.current_index == next_index(
                old(self).navigation.current_index as int,
                old(self).navigation.file_list@.len() as int,
            ),
    {
        if self.navigation.is_empty() {
            return;
        }
        self.navigation.navigate_next();
        self.pending_navigation = true;
    }

    /// Applies one tick's keys: "previous" (left arrow or H) first, then
    /// "next" (right arrow or L).
    pub fn handle_input(&mut self, previous: bool, next: bool)
        requires
            old(self).wf(),
        ensures
            final(self).wf(),
            final(self).image == old(self).image,
            final(self).navigation.file_list == old(self).navigation.file_list,
            old(self).navigation.file_list@.len() == 0 ==> *final(self) == *old(self),
            old(self).navigation.file_list@.len() > 0 ==> {
                let len = old(self).navigation.file_list@.len() as int;
                let i = old(self).navigation.current_index as int;
                let after_previous = if previous {
                    previous_index(i, len)
                } else {
                    i
                };
                &&& final(self).navigation.current_index == if next {
                    next_index(after_previous, len)
                } else {
                    after_previous
                }
                &&& final(self).pending_navigation == (old(self).pending_navigation || previous
                    || next)
            },
    {
        if previous {
            self.navigate_previous();
        }
        if next {
            self.navigate_next();
        }
    }

    /// Advances the animation at `now_ms`, and tells the host when to come
    /// back: in how many milliseconds the next frame is due, or `None` where
    /// no animation is shown and no periodic repaint is needed. A pending load
    /// comes first, so that the frame drawn reflects this tick's input.
    pub fn update(&mut self, now_ms: u64) -> (r: Option<u64>)
        requires
            old(self).wf(),
            !old(self).pending_navigation,
        ensures
            final(self).wf(),
            final(self).navigation == old(self).navigation,
            final(self).pending_navigation == old(self).pending_navigation,
            final(self).image.image == old(self).image.image,
            final(self).image.frame_delay == old(self).image.frame_delay,
            (final(self).image.current_frame as int, final(self).image.last_frame_update as int)
                == advance_model(
                old(self).image.current_frame as int,
                old(self).image.last_frame_update as int,
                old(self).image.frame_delay as int,
                old(self).image.frame_count(),
                now_ms as int,
            ),
            old(self).image.frame_count() == 0 ==> r is None,
            old(self).image.frame_count() > 0 ==> r == Some(
                remaining_ms(
                    final(self).image.last_frame_update as int,
                    final(self).image.frame_delay as int,
                    now_ms as int,
                ) as u64,
            ),
    {
        self.image.advance_frame_if_needed(now_ms);
        self.image.time_until_next_frame(now_ms)
    }
}

} // verus!
