//! Decomposition of an RGB image into a strip of per-channel renderings in a
//! chosen colour space.
//!
//! All arithmetic is exact: ratios that the renderings need are kept as pairs
//! of integers and rounded once, when a byte is produced.
use vstd::prelude::*;

pub mod channels;
pub mod cli;
pub mod compose;
pub mod geometry;
pub mod hue;
pub mod pixel;
pub mod raster;
pub mod spaces;

verus! {

} // verus!
