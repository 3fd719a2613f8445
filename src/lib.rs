//! Core of an image slideshow viewer: circular navigation over a sorted list
//! of image files, a cache of decoded images keyed by path, the prefetch
//! policy that decides which paths to decode ahead of display, and the
//! playback timer that advances the slideshow.
pub mod cache;
pub mod files;
pub mod index;
pub mod slideshow;
pub mod texture;

pub use cache::ImageCache;
pub use files::{image_files, is_image};
pub use slideshow::Slideshow;
