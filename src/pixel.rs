use vstd::prelude::*;

verus! {

/// One RGBA pixel.
#[derive(Clone, Copy, Debug, PartialEq, Eq, Structural)]
pub struct Rgba {
    pub r: u8,
    pub g: u8,
    pub b: u8,
    pub a: u8,
}

impl Rgba {
    pub fn new(r: u8, g: u8, b: u8, a: u8) -> (p: Rgba)
        ensures
            p == (Rgba { r, g, b, a }),
    {
        Rgba { r, g, b, a }
    }
}

} // verus!
