//! Astronomical calendar and leap-second core.
//!
//! The crate holds the integer heart of a time-scale toolkit: proleptic
//! Gregorian date validation, conversion between dates and Julian day
//! numbers, the clock split of a day into hours, minutes and seconds, and
//! the leap-second (TAI-UTC) table lookup.  Every function is verified;
//! floating-point layers (fractions of a day, time-scale offsets, Earth
//! orientation) sit outside and feed these functions plain integers.

pub mod calendar;
pub mod delta_at;
pub mod earth;

use vstd::prelude::*;

verus! {

} // verus!
