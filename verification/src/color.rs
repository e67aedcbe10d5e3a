use vstd::prelude::*;

verus! {

/// A colour of three 8-bit channels, as a texture stores it and an image
/// buffer receives it.
#[derive(Clone, Copy, Debug, PartialEq, Eq, Structural)]
pub struct Rgb8 {
    pub r: u8,
    pub g: u8,
    pub b: u8,
}

} // verus!
