//! Conversions between integer types that keep the low bits.
use vstd::prelude::*;

verus! {

/// The 64 bits of a number, as an unsigned number.
pub open spec fn unsigned_64(n: int) -> int {
    n % 0x1_0000_0000_0000_0000
}

/// The low 8 bits of a number, as an unsigned number.
pub open spec fn unsigned_8(n: int) -> int {
    n % 256
}

/// The 64 bits of a number, as a signed number.
pub open spec fn signed_64(n: u64) -> int {
    if n <= i64::MAX {
        n as int
    } else {
        n - 0x1_0000_0000_0000_0000
    }
}

/// The low 32 bits of a number, as a signed number.
pub open spec fn signed_32(n: int) -> int {
    (n + 0x8000_0000) % 0x1_0000_0000 - 0x8000_0000
}

/// Keeps the bits of a signed number in an unsigned one.
pub fn to_u64(n: i64) -> (r: u64)
    ensures
        r == unsigned_64(n as int),
{
    if n >= 0 {
        n as u64
    } else {
        let m: u64 = (-(n + 1)) as u64;
        u64::MAX - m
    }
}

/// Keeps the bits of an unsigned number in a signed one.
pub fn to_i64(n: u64) -> (r: i64)
    ensures
        r == signed_64(n),
{
    if n <= i64::MAX as u64 {
        n as i64
    } else {
        -((u64::MAX - n) as i64) - 1
    }
}

/// Keeps the low 8 bits of a number.
pub fn to_u8(n: i64) -> (r: u8)
    ensures
        r == unsigned_8(n as int),
{
    let shifted: i128 = (n as i128) + 0x1_0000_0000_0000_0000i128;
    let low: i128 = shifted % 256i128;
    proof {
        vstd::arithmetic::div_mod::lemma_mod_multiples_vanish(
            0x100_0000_0000_0000,
            n as int,
            256,
        );
    }
    low as u8
}

/// Keeps the low 32 bits of a number.
pub fn to_i32(n: i64) -> (r: i32)
    ensures
        r == signed_32(n as int),
{
    let shifted: i128 = (n as i128) + 0x8000_0000i128 + 0x1_0000_0000_0000_0000i128;
    let low: i128 = shifted % 0x1_0000_0000i128;
    proof {
        vstd::arithmetic::div_mod::lemma_mod_multiples_vanish(
            0x1_0000_0000,
            n + 0x8000_0000,
            0x1_0000_0000,
        );
    }
    (low - 0x8000_0000i128) as i32
}

/// A number keeps its value through a signed number of the same width.
pub proof fn lemma_u64_round_trip(n: u64)
    ensures
        unsigned_64(signed_64(n)) == n,
{
}

/// The bits of a signed number are kept in an unsigned one, and give the number back; a
/// number that is not negative keeps its value.
pub proof fn law_bits_round_trip(n: i64, m: u64)
    ensures
        0 <= unsigned_64(n as int) <= u64::MAX,
        n >= 0 ==> unsigned_64(n as int) == n,
        n < 0 ==> unsigned_64(n as int) == n + 0x1_0000_0000_0000_0000,
        signed_64(unsigned_64(n as int) as u64) == n,
        unsigned_64(signed_64(m)) == m,
{
}

/// The low bits of a number that fits are the number.
pub proof fn law_small_numbers_fit(n: int)
    ensures
        0 <= n < 256 ==> unsigned_8(n) == n,
        i32::MIN <= n <= i32::MAX ==> signed_32(n) == n,
        unsigned_8(n + 256) == unsigned_8(n),
{
}

} // verus!
