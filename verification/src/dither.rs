use vstd::prelude::*;

verus! {

/// The deterministic per-pixel hash behind the 8-bit dither noise: a
/// multiply-xor mix of the pixel coordinates, reinterpreted as `u32`.
pub open spec fn dither_hash_spec(x: i32, y: i32) -> u32 {
    let h0 = (x as u32).wrapping_mul(73856093u32) ^ (y as u32).wrapping_mul(19349663u32);
    let h1 = h0 ^ (h0 >> 13u32);
    let h2 = h1.wrapping_mul(0x85eb_ca6bu32);
    h2 ^ (h2 >> 16u32)
}

/// Hash of the pixel position `(x, y)`; the noise in `[0, 1]` is this value
/// divided by `u32::MAX`.  Every product is taken modulo `2^32`.
pub fn dither_hash(x: i32, y: i32) -> (h: u32)
    ensures
        h == dither_hash_spec(x, y),
        ({
            let h0 = ((((x as u32) as nat * 73856093nat) % 0x1_0000_0000nat) as u32)
                ^ ((((y as u32) as nat * 19349663nat) % 0x1_0000_0000nat) as u32);
            let h1 = h0 ^ (h0 >> 13u32);
            let h2 = (((h1 as nat) * 0x85eb_ca6bnat) % 0x1_0000_0000nat) as u32;
            h == h2 ^ (h2 >> 16u32)
        }),
{
    let mut h: u32 = (x as u32).wrapping_mul(73856093u32) ^ (y as u32).wrapping_mul(19349663u32);
    h = h ^ (h >> 13u32);
    h = h.wrapping_mul(0x85eb_ca6bu32);
    h = h ^ (h >> 16u32);
    h
}

proof fn lemma_xorshift13_injective(a: u32, b: u32)
    ensures
        (a ^ (a >> 13u32)) == (b ^ (b >> 13u32)) ==> a == b,
{
    assert((a ^ (a >> 13u32)) == (b ^ (b >> 13u32)) ==> a == b) by (bit_vector);
}

proof fn lemma_xorshift16_injective(a: u32, b: u32)
    ensures
        (a ^ (a >> 16u32)) == (b ^ (b >> 16u32)) ==> a == b,
{
    assert((a ^ (a >> 16u32)) == (b ^ (b >> 16u32)) ==> a == b) by (bit_vector);
}

proof fn lemma_odd_multiply_injective(a: u32, b: u32)
    ensures
        a.wrapping_mul(0x85eb_ca6bu32) == b.wrapping_mul(0x85eb_ca6bu32) ==> a == b,
{
    assert(a.wrapping_mul(0x85eb_ca6bu32).wrapping_mul(0xa5cb_9243u32) == a) by (bit_vector);
    assert(b.wrapping_mul(0x85eb_ca6bu32).wrapping_mul(0xa5cb_9243u32) == b) by (bit_vector);
}

/// The final mixing steps lose nothing: two pixels get the same hash only if
/// their first-stage mixes `x * 73856093 ^ y * 19349663` (modulo `2^32`)
/// agree.  In particular every column and every row gets varying noise.
pub proof fn lemma_dither_hash_separates(x1: i32, y1: i32, x2: i32, y2: i32)
    requires
        (((x1 as u32) as nat * 73856093nat) % 0x1_0000_0000nat) as u32 ^ (((y1 as u32) as nat
            * 19349663nat) % 0x1_0000_0000nat) as u32 != (((x2 as u32) as nat * 73856093nat)
            % 0x1_0000_0000nat) as u32 ^ (((y2 as u32) as nat * 19349663nat) % 0x1_0000_0000nat) as u32,
    ensures
        dither_hash_spec(x1, y1) != dither_hash_spec(x2, y2),
{
    let a0 = (x1 as u32).wrapping_mul(73856093u32) ^ (y1 as u32).wrapping_mul(19349663u32);
    let b0 = (x2 as u32).wrapping_mul(73856093u32) ^ (y2 as u32).wrapping_mul(19349663u32);
    let a1 = a0 ^ (a0 >> 13u32);
    let b1 = b0 ^ (b0 >> 13u32);
    let a2 = a1.wrapping_mul(0x85eb_ca6bu32);
    let b2 = b1.wrapping_mul(0x85eb_ca6bu32);
    lemma_xorshift13_injective(a0, b0);
    lemma_odd_multiply_injective(a1, b1);
    lemma_xorshift16_injective(a2, b2);
}

} // verus!
