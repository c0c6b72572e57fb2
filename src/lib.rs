//! Core of a small desktop image viewer: directory navigation in natural
//! order, GIF-first image decoding, frame-timed playback and contain-fit
//! layout. The host supplies directory listings, file contents and the clock.
pub mod layout;
pub mod loader;
pub mod navigation;
pub mod playback;
pub mod viewer;
