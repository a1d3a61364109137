//! Box-widget domain values: the aspect ratio and the fill colour.
use vstd::prelude::*;

verus! {

/// Aspect ratio carried by `aspect: <num>:<den>` literals.
#[derive(Clone, Copy, PartialEq, Eq, Debug, Structural)]
pub struct Ratio {
    pub num: i32,
    pub den: i32,
}

/// Packed colour carried by `fill: #RRGGBB` / `fill: #RRGGBBAA` literals,
/// laid out as `0xAARRGGBB` (alpha in the most significant byte).
#[derive(Clone, Copy, PartialEq, Eq, Debug, Structural)]
pub struct Color(pub u32);

} // verus!
