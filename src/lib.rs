//! Geometry behind a few interactive SVG figures: a radial-line figure, an
//! exact axis-aligned affine transform with its inverse, and the layout of a
//! line chart (screen points, polyline, ticks, crosshair and selection).
//!
//! All coordinates are exact: integers, or rationals where a division is
//! involved, so that every stated equality holds without rounding.

use vstd::prelude::*;

pub mod chart;
pub mod input;
pub mod radial;
pub mod transform;
pub mod vec2d;

verus! {

} // verus!
