//! Packing of a half-open byte range into one 64-bit value: `start` in the
//! high 32 bits, `end` in the low 32 bits.
use vstd::prelude::*;

verus! {

/// The packed form of `(start, end)`.
pub open spec fn packed(start: u32, end: u32) -> u64 {
    ((start as u64) << 32u64) | (end as u64)
}

/// The `(start, end)` that a packed value holds.
pub open spec fn unpacked(v: u64) -> (u32, u32) {
    ((v >> 32u64) as u32, v as u32)
}

/// Packs a range into one 64-bit value.
pub fn encode_range(start: u32, end: u32) -> (r: u64)
    ensures
        r == packed(start, end),
{
    ((start as u64) << 32u64) | (end as u64)
}

/// Unpacks a 64-bit value into `(start, end)`.
pub fn decode_range(v: u64) -> (r: (u32, u32))
    ensures
        r == unpacked(v),
{
    ((v >> 32u64) as u32, v as u32)
}

/// Decoding the packed form of any range gives the range back.
pub proof fn lemma_range_round_trip(start: u32, end: u32)
    ensures
        unpacked(packed(start, end)) == (start, end),
{
    let v = packed(start, end);
    assert(((((start as u64) << 32u64) | (end as u64)) >> 32u64) as u32 == start) by (bit_vector);
    assert(((((start as u64) << 32u64) | (end as u64)) as u32) == end) by (bit_vector);
}

} // verus!
