//! Splitting of field elements and 32-bit values.

use crate::felt::felt;
use crate::felt::Felt;
use vstd::prelude::*;

verus! {

/// The upper 32 bits of an element.
pub open spec fn hi32(e: Felt) -> Felt {
    felt(e@ as int / 0x1_0000_0000)
}

/// The lower 32 bits of an element.
pub open spec fn lo32(e: Felt) -> Felt {
    felt(e@ as int % 0x1_0000_0000)
}

/// The upper and the lower 32 bits of an element.
pub fn split_element(value: Felt) -> (r: (Felt, Felt))
    ensures
        r == (hi32(value), lo32(value)),
        r.0@ <= u32::MAX,
        r.1@ <= u32::MAX,
{
    let v: u64 = value.as_int();
    (Felt::new(v / 0x1_0000_0000), Felt::new(v % 0x1_0000_0000))
}

/// The upper and the lower 16 bits of a 32-bit value.
pub fn split_u32_into_u16(value: u64) -> (r: (u16, u16))
    requires
        value <= u32::MAX,
    ensures
        r.0 == value as int / 0x1_0000,
        r.1 == value as int % 0x1_0000,
{
    ((value / 0x1_0000) as u16, (value % 0x1_0000) as u16)
}

} // verus!
