//! Verified core of a terminal image and video viewer: media classification by
//! file extension, aspect-preserving sizing, RGBA frames, and the ANSI
//! half-block renderer that turns a frame into terminal output.

pub mod error;
pub mod frame;
pub mod geometry;
pub mod media;
pub mod playback;
pub mod render;
pub mod text;
