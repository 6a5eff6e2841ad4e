//! Builds an auto-advancing slideshow of HTML pages from a playlist of
//! `<display time> <link>` lines: each entry is classified as a website, a
//! video or an image by its link, and its page links on to the next entry's,
//! the last back to the first.
pub mod chain;
pub mod config;
pub mod duration;
pub mod laws;
pub mod mode;
pub mod page;
pub mod text;
