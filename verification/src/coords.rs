use vstd::prelude::*;

verus! {

/// A point in whole pixels of the host's frame (screen) space.
#[derive(Clone, Copy, Debug, PartialEq, Eq, Structural)]
pub struct FramePoint {
    pub h: i32,
    pub v: i32,
}

/// A point in the host's 16.16 fixed-point format.
#[derive(Clone, Copy, Debug, PartialEq, Eq, Structural)]
pub struct FixedPoint {
    pub x: i32,
    pub y: i32,
}

/// `after_effects::Fixed::from_int(v).as_fixed()`: the crate builds the
/// fixed-point value as `v << 16` on `i32`, so values outside
/// `-32768..=32767` wrap.
#[verifier::external_body]
fn fixed_from_int(v: i32) -> (r: i32)
    ensures
        r == v << 16u32,
{
    after_effects::Fixed::from_int(v).as_fixed()
}

/// `after_effects::Fixed::from_fixed(v).to_int()`: the crate drops the
/// fraction with the arithmetic shift `v >> 16`.
#[verifier::external_body]
fn fixed_to_int(v: i32) -> (r: i32)
    ensures
        r == v >> 16u32,
{
    after_effects::Fixed::from_fixed(v).to_int()
}

/// A frame point in fixed-point form, as handed to the host's
/// coordinate-conversion callbacks.
pub fn frame_to_fixed(pt: FramePoint) -> (f: FixedPoint)
    ensures
        f.x == pt.h << 16u32,
        f.y == pt.v << 16u32,
{
    FixedPoint { x: fixed_from_int(pt.h), y: fixed_from_int(pt.v) }
}

/// The whole-pixel part of a fixed-point point that the host returned.
pub fn fixed_to_frame(f: FixedPoint) -> (pt: FramePoint)
    ensures
        pt.h == f.x >> 16u32,
        pt.v == f.y >> 16u32,
{
    FramePoint { h: fixed_to_int(f.x), v: fixed_to_int(f.y) }
}

/// A frame point whose coordinates fit the fixed-point range
/// (`-32768..=32767`) comes back unchanged from its fixed-point form.
pub proof fn lemma_frame_fixed_roundtrip(pt: FramePoint)
    requires
        -32768 <= pt.h <= 32767,
        -32768 <= pt.v <= 32767,
    ensures
        (FramePoint { h: (pt.h << 16u32) >> 16u32, v: (pt.v << 16u32) >> 16u32 }) == pt,
{
    let h = pt.h;
    let v = pt.v;
    assert((h << 16u32) >> 16u32 == h) by (bit_vector)
        requires
            -32768 <= h <= 32767,
    ;
    assert((v << 16u32) >> 16u32 == v) by (bit_vector)
        requires
            -32768 <= v <= 32767,
    ;
}

} // verus!
