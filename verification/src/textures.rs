//! Texture addressing modes.
use vstd::prelude::*;

verus! {

/// What a texture lookup outside the image returns.
#[derive(Debug, Clone, Copy, PartialEq, Eq, Structural)]
pub enum ImageWrapMethod {
    Repeat,
    Black,
    Clamp,
}

} // verus!
