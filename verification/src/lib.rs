//! Verified core of a drag-to-draw gradient effect: the decisions that turn
//! the effect's parameters and pointer events into gradient stops, sample
//! lookups, dithering noise and UI replies.  Pixel arithmetic in floating
//! point and every call into the host stay outside this crate.

pub mod dither;
pub mod params;
pub mod stops;
pub mod coords;
pub mod ui;
pub mod render;
