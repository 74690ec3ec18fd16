//! A cache of decoded splatter bitmaps: four effects, each animated over four
//! frames in two size variants, decoded from base-64 PNG text on first use and
//! then looked up by effect, frame and size together with a drawing anchor.

pub mod size;
pub mod decode;
pub mod frames;
pub mod cache;
