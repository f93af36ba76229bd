//! Bit-field extraction and mask construction on 32-bit words.
use vstd::prelude::*;

verus! {

/// The mask of `width` ones, starting at bit `start`.
pub open spec fn spec_bitmask(start: u32, width: u32) -> u32 {
    ((((1u32 << width) - 1) as u32) << start) as u32
}

/// The `width` bits of `val` that start at bit `start`, moved down to bit 0.
pub open spec fn spec_bits(val: u32, start: u32, width: u32) -> u32 {
    (val >> start) & (((1u32 << width) - 1) as u32)
}

/// Extracts `width` bits of `val` starting at bit `start`.
pub fn bits(val: u32, start: u32, width: u32) -> (r: u32)
    requires
        start < 32,
        width < 32,
    ensures
        r == spec_bits(val, start, width),
        r < (1u32 << width),
{
    assert(width < 32 ==> (1u32 << width) >= 1) by (bit_vector);
    assert(width < 32 ==> (val >> start) & (((1u32 << width) - 1) as u32) < (1u32 << width))
        by (bit_vector);
    (val >> start) & ((1u32 << width) - 1)
}

/// Extracts the bits `end` down to `start` (both included) of `val`.
pub fn bits_range(val: u32, end: u32, start: u32) -> (r: u32)
    requires
        start <= end < 32,
        end - start + 1 < 32,
    ensures
        r == spec_bits(val, start, (end - start + 1) as u32),
{
    bits(val, start, end - start + 1)
}

/// Extracts the single bit `index` of `val`.
pub fn bit(val: u32, index: u32) -> (r: u32)
    requires
        index < 32,
    ensures
        r == spec_bits(val, index, 1),
        r == (val >> index) & 1,
        r <= 1,
{
    assert((((1u32 << 1u32) - 1) as u32) == 1u32) by (bit_vector);
    bits(val, index, 1)
}

/// A mask of `width` ones starting at bit `start`.
pub fn bitmask(start: u32, width: u32) -> (r: u32)
    requires
        start < 32,
        width < 32,
    ensures
        r == spec_bitmask(start, width),
{
    assert(width < 32 ==> (1u32 << width) >= 1) by (bit_vector);
    ((1u32 << width) - 1) << start
}

/// A mask covering the bits `end` down to `start` (both included).
pub fn bitmask_range(end: u32, start: u32) -> (r: u32)
    requires
        start <= end < 32,
        end - start + 1 < 32,
    ensures
        r == spec_bitmask(start, (end - start + 1) as u32),
{
    bitmask(start, end - start + 1)
}

/// A mask of the `width` lowest bits.
pub fn bitmask_low(width: u32) -> (r: u32)
    requires
        width < 32,
    ensures
        r == spec_bitmask(0, width),
        r == ((1u32 << width) - 1) as u32,
{
    let r = bitmask(0, width);
    assert(width < 32 ==> ((((1u32 << width) - 1) as u32) << 0u32) as u32 == ((1u32 << width) - 1) as u32) by (bit_vector);
    r
}

/// Extracting the bits under a mask and moving them back recovers exactly the
/// masked part of the word.
pub proof fn law_bits_under_mask(val: u32, start: u32, width: u32)
    requires
        start < 32,
        width < 32,
        start + width <= 32,
    ensures
        (spec_bits(val, start, width) << start) as u32 == val & spec_bitmask(start, width),
{
    assert(start < 32 && width < 32 && start + width <= 32 ==>
        (((val >> start) & (((1u32 << width) - 1) as u32)) << start) as u32
            == val & ((((1u32 << width) - 1) as u32) << start) as u32) by (bit_vector);
}

/// The lowest bit of an `i32` is clear exactly when it is even.
pub proof fn lemma_even_low_bit(x: i32)
    ensures
        (x & 1 == 0) <==> (x % 2 == 0),
{
    assert((x & 1 == 0) <==> (x % 2 == 0)) by (bit_vector);
}

/// The low five bits of a word are a shift amount below 32.
pub proof fn lemma_low_five_bits(x: u32)
    ensures
        x & 0x1F < 32,
{
    assert(x & 0x1Fu32 < 32) by (bit_vector);
}

/// The low two bits of a word are its remainder modulo four.
pub proof fn lemma_low_two_bits(x: u32)
    ensures
        x & 3 == x % 4,
{
    assert(x & 3u32 == x % 4) by (bit_vector);
}

/// An even `i32` keeps its value when its lowest bit is cleared.
pub proof fn lemma_even_clear_low_bit(x: i32)
    requires
        x % 2 == 0,
    ensures
        ((x as u32) & 0xFFFF_FFFEu32) as i32 == x,
{
    lemma_even_low_bit(x);
    assert(((x as u32) & 0xFFFF_FFFEu32) as i32 == x) by (bit_vector)
        requires
            x & 1 == 0,
    ;
}

} // verus!
