//! Perceptual color distance: Euclidean distance between two colors in the
//! CIELAB space, where distance approximates human-perceived difference.
//!
//! The distance itself is computed by the `palette` crate in floating
//! point; verified code sees it only through its IEEE-754 bit pattern,
//! which for the non-negative distances produced here orders exactly as
//! the distances do, so nearest-entry selection over the bit patterns
//! selects the same entry.

use palette::color_difference::EuclideanDistance;
use palette::{FromColor, Lab, Srgb};
use vstd::prelude::*;

verus! {

/// The CIELAB distance between the colors `(ar, ag, ab)` and
/// `(br, bg, bb)`, as the bit pattern of the 32-bit float that
/// `lab_distance_bits` computes. A function of the two colors alone.
pub uninterp spec fn lab_dist(ar: u8, ag: u8, ab: u8, br: u8, bg: u8, bb: u8) -> u32;

/// `lab_dist` applied to a pair of color triples.
pub open spec fn dist_to(c: (u8, u8, u8), p: (u8, u8, u8)) -> u32 {
    lab_dist(c.0, c.1, c.2, p.0, p.1, p.2)
}

/// Relies on the palette crate's Srgb-to-Lab conversion and its
/// `EuclideanDistance` for `Lab`: both colors are converted to CIELAB and
/// their Euclidean distance over (L, a, b) is returned as its IEEE-754
/// bit pattern. Both are pure functions of the channel values, so the
/// result depends on the two colors alone; identical colors convert
/// identically, every channel difference is then exactly zero, and the
/// distance is zero.
#[verifier::external_body]
pub fn lab_distance_bits(a: (u8, u8, u8), b: (u8, u8, u8)) -> (r: u32)
    ensures
        r == lab_dist(a.0, a.1, a.2, b.0, b.1, b.2),
        a == b ==> r == 0,
{
    let lab_a: Lab = Lab::from_color(Srgb::new(a.0, a.1, a.2).into_format());
    let lab_b: Lab = Lab::from_color(Srgb::new(b.0, b.1, b.2).into_format());
    lab_a.distance(lab_b).to_bits()
}

} // verus!
