//! Arithmetic in the Goldilocks prime field, of order `2^64 - 2^32 + 1`.
//!
//! Field elements are held as canonical `u64` values, that is values below
//! [`ORDER`].
use vstd::prelude::*;

verus! {

/// The order of the field: `2^64 - 2^32 + 1`.
pub const ORDER: u64 = 0xFFFF_FFFF_0000_0001;

/// The field order as a mathematical integer.
pub open spec fn modulus() -> int {
    18446744069414584321
}

/// A `u64` that is a canonical field element.
pub open spec fn is_canonical(x: u64) -> bool {
    x < modulus()
}

/// The canonical representative of `x` modulo the field order.
pub open spec fn reduce_spec(x: int) -> u64 {
    (x % modulus()) as u64
}

/// Reduces any `u64` to its canonical field element.
pub fn reduce(x: u64) -> (r: u64)
    ensures
        r == reduce_spec(x as int),
        is_canonical(r),
{
    x % ORDER
}

/// Field addition.
pub fn field_add(a: u64, b: u64) -> (r: u64)
    ensures
        r == reduce_spec(a + b),
        is_canonical(r),
{
    let s: u128 = (a as u128) + (b as u128);
    (s % (ORDER as u128)) as u64
}

/// Field multiplication.
pub fn field_mul(a: u64, b: u64) -> (r: u64)
    ensures
        r == reduce_spec(a * b),
        is_canonical(r),
{
    proof {
        assert((a as int) * (b as int) <= 0xFFFF_FFFF_FFFF_FFFFint * 0xFFFF_FFFF_FFFF_FFFFint)
            by (nonlinear_arith);
    }
    let s: u128 = (a as u128) * (b as u128);
    (s % (ORDER as u128)) as u64
}

} // verus!
