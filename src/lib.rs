//! A colour value that can be read and changed through either the RGB or the
//! HSV model, whichever of the two it happens to be stored in.
//!
//! Every scalar is fixed point with 32 fractional bits: a channel of `ONE`
//! stands for 1.0, and a hue of `ONE` stands for one degree. Conversions
//! round down to the nearest unit.
use vstd::prelude::*;

pub mod color;
pub mod laws;
pub mod round_trip;

pub use color::{Color, HUE_SECTOR, HUE_TURN, ONE};
