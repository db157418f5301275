use vstd::prelude::*;

verus! {

/// Whether bit `bit` (0 = least significant) of `v` is set.
pub open spec fn bit_is_set(v: u8, bit: u8) -> bool {
    (v >> bit) & 1u8 == 1u8
}

/// `v` with bit `bit` set (`on`) or cleared.
pub open spec fn with_bit(v: u8, bit: u8, on: bool) -> u8 {
    if on {
        v | (1u8 << bit)
    } else {
        v & !(1u8 << bit)
    }
}

/// Sets or clears one bit of `value` in place.
pub fn bit_write(value: &mut u8, bit: u8, bitvalue: bool)
    requires
        bit < 8,
    ensures
        *final(value) == with_bit(*old(value), bit, bitvalue),
{
    if bitvalue {
        *value = *value | (1u8 << bit);
    } else {
        *value = *value & !(1u8 << bit);
    }
}

} // verus!
