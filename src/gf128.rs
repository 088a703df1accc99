//! The mathematical model: multiplication in GF(2^128) as GCM defines it,
//! and GHASH as a fold of that multiplication over a sequence of blocks.
//!
//! An element is a `u128` whose most significant bit is the coefficient of
//! x^0, which is how GCM reads a 16-byte block in big-endian order.
use vstd::prelude::*;

verus! {

/// The reduction constant for x^128 + x^7 + x^2 + x + 1 in GCM's bit order.
pub const R: u128 = 0xe100_0000_0000_0000_0000_0000_0000_0000;

/// Multiplication of an element by x.
pub open spec fn times_x(v: u128) -> u128 {
    if v & 1 == 0 {
        v >> 1u32
    } else {
        (v >> 1u32) ^ R
    }
}

/// The element `h * x^i`.
pub open spec fn h_power(h: u128, i: nat) -> u128
    decreases i,
{
    if i == 0 {
        h
    } else {
        times_x(h_power(h, (i - 1) as nat))
    }
}

/// The coefficient of x^i in `x`, for `i < 128`.
pub open spec fn coeff(x: u128, i: nat) -> bool {
    (x >> ((127 - i) as u32)) & 1 == 1
}

/// The sum of `h * x^i` over the first `n` coefficients `i` that are set in `x`.
pub open spec fn partial_product(x: u128, h: u128, n: nat) -> u128
    decreases n,
{
    if n == 0 {
        0
    } else {
        let i = (n - 1) as nat;
        let prev = partial_product(x, h, i);
        if coeff(x, i) {
            prev ^ h_power(h, i)
        } else {
            prev
        }
    }
}

/// The product `x * h` in GF(2^128).
pub open spec fn gf_mul(x: u128, h: u128) -> u128 {
    partial_product(x, h, 128)
}

/// GHASH: starting from `xi`, each block `a` in turn sets `xi := (xi ^ a) * h`.
pub open spec fn ghash(xi: u128, h: u128, blocks: Seq<u128>) -> u128
    decreases blocks.len(),
{
    if blocks.len() == 0 {
        xi
    } else {
        gf_mul(ghash(xi, h, blocks.drop_last()) ^ blocks.last(), h)
    }
}

/// Absorbing `b1` followed by `b2` in one run ends where absorbing `b1`, then
/// `b2` from the state that `b1` left, ends.
pub proof fn lemma_ghash_split(xi: u128, h: u128, b1: Seq<u128>, b2: Seq<u128>)
    ensures
        ghash(xi, h, b1 + b2) == ghash(ghash(xi, h, b1), h, b2),
    decreases b2.len(),
{
    if b2.len() == 0 {
        assert(b1 + b2 =~= b1);
    } else {
        lemma_ghash_split(xi, h, b1, b2.drop_last());
        assert((b1 + b2).drop_last() =~= b1 + b2.drop_last());
        assert((b1 + b2).last() == b2.last());
    }
}

/// Absorbing one block is the step of the fold: `(xi ^ a) * h`.
pub proof fn lemma_ghash_one(xi: u128, h: u128, a: u128)
    ensures
        ghash(xi, h, seq![a]) == gf_mul(xi ^ a, h),
{
    assert(seq![a].drop_last() =~= Seq::<u128>::empty());
    assert(ghash(xi, h, Seq::<u128>::empty()) == xi);
}

/// Absorbing a block of zero bits multiplies the state by `h`: it is
/// `(xi ^ 0) * h = xi * h`, not a no-op.
pub proof fn lemma_zero_block(xi: u128, h: u128)
    ensures
        ghash(xi, h, seq![0u128]) == gf_mul(xi, h),
{
    lemma_ghash_one(xi, h, 0);
    assert(xi ^ 0u128 == xi) by (bit_vector);
}

/// One step of `times_x`.
pub fn mul_by_x(v: u128) -> (r: u128)
    ensures
        r == times_x(v),
{
    if v & 1 == 0 {
        v >> 1u32
    } else {
        (v >> 1u32) ^ R
    }
}

/// Tests the coefficient of x^i in `x`.
pub fn has_coeff(x: u128, i: u32) -> (r: bool)
    requires
        i < 128,
    ensures
        r == coeff(x, i as nat),
{
    (x >> (127 - i)) & 1 == 1
}

/// The product `x * h`, computing each `h * x^i` on the way: needs no table.
pub fn multiply(x: u128, h: u128) -> (r: u128)
    ensures
        r == gf_mul(x, h),
{
    let mut z: u128 = 0;
    let mut v: u128 = h;
    let mut i: u32 = 0;
    while i < 128
        invariant
            i <= 128,
            z == partial_product(x, h, i as nat),
            v == h_power(h, i as nat),
        decreases 128 - i,
    {
        if has_coeff(x, i) {
            z = z ^ v;
        }
        v = mul_by_x(v);
        i = i + 1;
    }
    z
}

} // verus!
