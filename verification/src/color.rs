//! Opaque colours with eight bits to the channel.

use vstd::prelude::*;
use crate::chance::gen_range;

verus! {

/// An opaque colour.
#[derive(Clone, Copy, Debug, PartialEq, Eq, Structural)]
pub struct Color {
    pub red: u8,
    pub green: u8,
    pub blue: u8,
}

impl Color {
    /// White, the fill of a square that was never painted.
    pub open spec fn spec_white() -> Color {
        Color { red: 255, green: 255, blue: 255 }
    }

    /// Black, the stroke of a square that was never painted.
    pub open spec fn spec_black() -> Color {
        Color { red: 0, green: 0, blue: 0 }
    }

    /// Each channel lies in the range that a random colour is drawn from:
    /// from 0 up to, and not including, 255.
    pub open spec fn is_sampled(self) -> bool {
        self.red < 255 && self.green < 255 && self.blue < 255
    }

    /// The colour with the given channels.
    pub fn new(red: u8, green: u8, blue: u8) -> (color: Color)
        ensures
            color == (Color { red, green, blue }),
    {
        Color { red, green, blue }
    }

    /// White.
    pub fn white() -> (color: Color)
        ensures
            color == Color::spec_white(),
    {
        Color { red: 255, green: 255, blue: 255 }
    }

    /// Black.
    pub fn black() -> (color: Color)
        ensures
            color == Color::spec_black(),
    {
        Color { red: 0, green: 0, blue: 0 }
    }
}

/// A random opaque colour: each channel is drawn by itself, from 0 up to, and
/// not including, 255.
pub fn generate_random_color() -> (color: Color)
    ensures
        color.is_sampled(),
{
    let red = gen_range(0, 255);
    let green = gen_range(0, 255);
    let blue = gen_range(0, 255);
    Color::new(red, green, blue)
}

} // verus!
