//! Turning the film's RGB image into the RGBA frame the window shows.
use vstd::prelude::*;

verus! {

/// Byte `i` of the RGBA frame made from `rgb`: pixel `i / 4` copies its
/// three colour bytes from `rgb` and is opaque; pixels that `rgb` does not
/// provide stay zero.
pub open spec fn rgba_byte(rgb: Seq<u8>, i: int) -> u8 {
    let p = i / 4;
    let c = i % 4;
    if p < rgb.len() / 3 {
        if c == 3 {
            255u8
        } else {
            rgb[3 * p + c]
        }
    } else {
        0u8
    }
}

/// Builds the RGBA frame of a `width` by `height` window from RGB bytes.
/// The RGB data holds whole pixels, and no more than the window has.
pub fn rgba_frame(rgb: &Vec<u8>, width: u32, height: u32) -> (out: Vec<u8>)
    requires
        rgb.len() % 3 == 0,
        rgb.len() / 3 <= width * height,
        width * height * 4 <= usize::MAX,
    ensures
        out.len() == width * height * 4,
        forall|i: int| 0 <= i < out.len() ==> #[trigger] out@[i] == rgba_byte(rgb@, i),
{
    let total = width as usize * height as usize * 4;
    let pixels = rgb.len() / 3;
    let mut out: Vec<u8> = Vec::new();
    let mut i: usize = 0;
    while i < total
        invariant
            total == width * height * 4,
            pixels == rgb.len() / 3,
            i <= total,
            out.len() == i,
            forall|j: int| 0 <= j < i ==> #[trigger] out@[j] == rgba_byte(rgb@, j),
        decreases total - i,
    {
        let p = i / 4;
        let c = i % 4;
        let byte = if p < pixels {
            if c == 3 {
                255u8
            } else {
                rgb[3 * p + c]
            }
        } else {
            0u8
        };
        out.push(byte);
        i = i + 1;
    }
    out
}

} // verus!
