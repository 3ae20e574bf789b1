//! A xorshift pseudo-random generator over an explicit 64-bit state.
use vstd::prelude::*;

verus! {

/// One xorshift step: shift-xor by 13 left, 7 right, 17 left.
pub open spec fn xorshift(s: u64) -> u64 {
    let a = s ^ (s << 13u64);
    let b = a ^ (a >> 7u64);
    b ^ (b << 17u64)
}

/// Advances the state and returns the new state.
pub fn next_u64(seed: &mut u64) -> (r: u64)
    ensures
        r == xorshift(*old(seed)),
        *final(seed) == r,
{
    let mut s = *seed;
    s = s ^ (s << 13u64);
    s = s ^ (s >> 7u64);
    s = s ^ (s << 17u64);
    *seed = s;
    s
}

/// The next number, converted with `From<u64>`.
pub fn random<T: From<u64>>(seed: &mut u64) -> (r: T)
    ensures
        *final(seed) == xorshift(*old(seed)),
        call_ensures(T::from, (xorshift(*old(seed)),), r),
{
    T::from(next_u64(seed))
}

/// The next number as a `usize` (its low bits where `usize` is narrower).
pub fn random_usize(seed: &mut u64) -> (r: usize)
    ensures
        *final(seed) == xorshift(*old(seed)),
        r == xorshift(*old(seed)) as usize,
{
    next_u64(seed) as usize
}

/// The next number.
pub fn random_u64(seed: &mut u64) -> (r: u64)
    ensures
        *final(seed) == xorshift(*old(seed)),
        r == xorshift(*old(seed)),
{
    next_u64(seed)
}

/// The low 32 bits of the next number.
pub fn random_u32(seed: &mut u64) -> (r: u32)
    ensures
        *final(seed) == xorshift(*old(seed)),
        r == xorshift(*old(seed)) % 0x1_0000_0000,
{
    let n = next_u64(seed);
    let low = n & 0xFFFF_FFFFu64;
    assert(low == n % 0x1_0000_0000) by (bit_vector)
        requires
            low == n & 0xFFFF_FFFFu64,
    ;
    low as u32
}

/// The low 16 bits of the next number.
pub fn random_u16(seed: &mut u64) -> (r: u16)
    ensures
        *final(seed) == xorshift(*old(seed)),
        r == xorshift(*old(seed)) % 0x1_0000,
{
    let n = next_u64(seed);
    let low = n & 0xFFFFu64;
    assert(low == n % 0x1_0000) by (bit_vector)
        requires
            low == n & 0xFFFFu64,
    ;
    low as u16
}

/// The generator never reaches the all-zero state from another state: a
/// nonzero state stays nonzero.
pub proof fn lemma_xorshift_nonzero(s: u64)
    requires
        s != 0,
    ensures
        xorshift(s) != 0,
{
    let a = s ^ (s << 13u64);
    let b = a ^ (a >> 7u64);
    assert(s != 0 ==> s ^ (s << 13u64) != 0) by (bit_vector);
    assert(a != 0 ==> a ^ (a >> 7u64) != 0) by (bit_vector);
    assert(b != 0 ==> b ^ (b << 17u64) != 0) by (bit_vector);
}

} // verus!
