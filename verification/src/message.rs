//! Numbers that Win32 messages carry.

use vstd::prelude::*;

verus! {

/// The low 16 bits of a number.
pub open spec fn low_16(n: int) -> u16 {
    (n % 0x1_0000) as u16
}

/// The low 32 bits of a number.
pub open spec fn low_32(n: int) -> u32 {
    (n % 0x1_0000_0000) as u32
}

/// The low 16 bits of a number.
pub fn low_u16(n: u32) -> (r: u16)
    ensures
        r == low_16(n as int),
{
    assert(n as u16 == n % 0x1_0000) by (bit_vector);
    n as u16
}

/// The low 32 bits of a number.
pub fn low_u32(n: usize) -> (r: u32)
    ensures
        r == low_32(n as int),
{
    let wide: u64 = n as u64;
    assert(wide as u32 == wide % 0x1_0000_0000) by (bit_vector);
    wide as u32
}

/// The low bits of a number are less than one unit of the next bit, and the number without them is
/// a whole number of such units.
pub proof fn low_bits_are_what_is_left_over(n: int)
    requires
        n >= 0,
    ensures
        (n - low_16(n)) % 65536 == 0,
        (n - low_32(n)) % 4294967296 == 0,
        n < 65536 ==> low_16(n) == n,
        n < 4294967296 ==> low_32(n) == n,
{
    assert(low_16(n) == n % 65536);
    assert(low_32(n) == n % 4294967296);
    vstd::arithmetic::div_mod::lemma_fundamental_div_mod(n, 65536);
    vstd::arithmetic::div_mod::lemma_fundamental_div_mod(n, 4294967296);
    vstd::arithmetic::div_mod::lemma_mod_multiples_basic(n / 65536, 65536);
    vstd::arithmetic::div_mod::lemma_mod_multiples_basic(n / 4294967296, 4294967296);
}

} // verus!
