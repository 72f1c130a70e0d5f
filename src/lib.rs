//! Section-by-section comparison of two object images, rendered as
//! aligned hex-dump line diffs.
//!
//! `image` models an image as its ordered sections and finds sections by
//! name; `render` turns two byte blobs into added and removed hex lines;
//! `matcher` pairs the sections of two images and decides which pairs are
//! compared; `laws` states and proves general properties of the whole.

pub mod image;
pub mod render;
pub mod matcher;
pub mod laws;
