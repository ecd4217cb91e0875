use vstd::prelude::*;

verus! {

/// One pixel of the final image: three 8-bit channels, red, green, blue.
#[derive(Clone, Copy, PartialEq, Eq, Structural, Debug)]
pub struct Pixel {
    pub r: u8,
    pub g: u8,
    pub b: u8,
}

/// What `clamp` returns: `val` forced into the band `[minimum, maximum]`,
/// where `minimum` wins over `maximum` if the band is empty.
pub open spec fn spec_clamp(val: u32, minimum: u32, maximum: u32) -> u32 {
    let capped = if val < maximum {
        val
    } else {
        maximum
    };
    if capped < minimum {
        minimum
    } else {
        capped
    }
}

/// Clamp `val` into `[minimum, maximum]`.
pub fn clamp(val: u32, minimum: u32, maximum: u32) -> (r: u32)
    ensures
        r == spec_clamp(val, minimum, maximum),
        minimum <= maximum ==> minimum <= r <= maximum,
{
    let capped: u32 = if val < maximum {
        val
    } else {
        maximum
    };
    if capped < minimum {
        minimum
    } else {
        capped
    }
}

/// Build the stored pixel from channel values already scaled to the 0..=255
/// range of one byte: each channel is clamped to that range and narrowed.
pub fn clamp_colour(r: u32, g: u32, b: u32) -> (p: Pixel)
    ensures
        p.r == spec_clamp(r, 0, 255),
        p.g == spec_clamp(g, 0, 255),
        p.b == spec_clamp(b, 0, 255),
{
    let cr: u32 = clamp(r, 0, 255);
    let cg: u32 = clamp(g, 0, 255);
    let cb: u32 = clamp(b, 0, 255);
    Pixel { r: cr as u8, g: cg as u8, b: cb as u8 }
}

} // verus!
