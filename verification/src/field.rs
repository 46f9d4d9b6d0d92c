//! Arithmetic in GF(2^8), the field of the cipher's byte operations: bytes are
//! polynomials over GF(2), addition is exclusive or, and products are reduced
//! modulo x^8 + x^4 + x^3 + x + 1.

use vstd::prelude::*;

verus! {

/// The low byte of the reduction polynomial x^8 + x^4 + x^3 + x + 1.
pub const REDUCTION: u8 = 0x1b;

/// Whether bit `i` of `k` is set.
pub open spec fn bit(k: u8, i: nat) -> bool {
    (k >> (i as u8)) & 1 == 1
}

/// The product of `a` and x: one shift to the left, reduced where the top
/// bit was set.
pub open spec fn times_x(a: u8) -> u8 {
    if a >= 0x80 {
        (a << 1u8) ^ REDUCTION
    } else {
        a << 1u8
    }
}

/// The product of `a` and x^n.
pub open spec fn times_x_pow(a: u8, n: nat) -> u8
    decreases n,
{
    if n == 0 {
        a
    } else {
        times_x(times_x_pow(a, (n - 1) as nat))
    }
}

/// The product of `a` and the low `n` bits of `k`: the sum, over each set
/// bit `i < n` of `k`, of `a` times x^i.
pub open spec fn partial_product(a: u8, k: u8, n: nat) -> u8
    decreases n,
{
    if n == 0 {
        0u8
    } else {
        let rest = partial_product(a, k, (n - 1) as nat);
        if bit(k, (n - 1) as nat) {
            rest ^ times_x_pow(a, (n - 1) as nat)
        } else {
            rest
        }
    }
}

/// The product of `a` and `k` in GF(2^8).
pub open spec fn gf_mul(a: u8, k: u8) -> u8 {
    partial_product(a, k, 8)
}

/// Exclusive or with zero changes nothing, on either side.
pub proof fn lemma_xor_zero(a: u8)
    ensures
        a ^ 0u8 == a,
        0u8 ^ a == a,
{
    assert(a ^ 0u8 == a) by (bit_vector);
    assert(0u8 ^ a == a) by (bit_vector);
}

/// Which bits the constants zero, one, two and four have set.
proof fn lemma_small_constants()
    ensures
        forall|i: nat|
            #![trigger bit(0, i)]
            #![trigger bit(1, i)]
            #![trigger bit(2, i)]
            #![trigger bit(4, i)]
            i < 8 ==> {
                &&& !bit(0, i)
                &&& (bit(1, i) <==> i == 0)
                &&& (bit(2, i) <==> i == 1)
                &&& (bit(4, i) <==> i == 2)
            },
{
    assert forall|i: nat|
        #![trigger bit(0, i)]
        #![trigger bit(1, i)]
        #![trigger bit(2, i)]
        #![trigger bit(3, i)]
        #![trigger bit(4, i)]
        i < 8 implies {
            &&& !bit(0, i)
            &&& (bit(1, i) <==> i == 0)
            &&& (bit(2, i) <==> i == 1)
            &&& (bit(4, i) <==> i == 2)
        } by {
        let s = i as u8;
        assert(s < 8 ==> ((0u8 >> s) & 1 != 1 && ((1u8 >> s) & 1 == 1 <==> s == 0) && ((2u8 >> s)
            & 1 == 1 <==> s == 1) && ((4u8 >> s) & 1 == 1 <==> s == 2))) by (bit_vector);
    }
}

/// Multiplying by one gives the byte back.
pub proof fn lemma_mul_one(a: u8)
    ensures
        gf_mul(a, 1) == a,
{
    lemma_small_constants();
    lemma_xor_zero(a);
    reveal_with_fuel(partial_product, 9);
}

/// Multiplying by zero gives zero.
pub proof fn lemma_mul_zero(a: u8)
    ensures
        gf_mul(a, 0) == 0,
{
    lemma_small_constants();
    reveal_with_fuel(partial_product, 9);
}

/// Multiplying by two is one multiplication by x.
pub proof fn lemma_mul_two(a: u8)
    ensures
        gf_mul(a, 2) == times_x(a),
{
    lemma_small_constants();
    lemma_xor_zero(times_x(a));
    reveal_with_fuel(partial_product, 9);
    reveal_with_fuel(times_x_pow, 2);
}

/// Multiplying by four is two multiplications by x.
pub proof fn lemma_mul_four(a: u8)
    ensures
        gf_mul(a, 4) == times_x(times_x(a)),
{
    lemma_small_constants();
    lemma_xor_zero(times_x(times_x(a)));
    reveal_with_fuel(partial_product, 9);
    reveal_with_fuel(times_x_pow, 3);
}

/// Doubling twice is multiplying by four: the reduction keeps products
/// associative.
pub proof fn lemma_double_twice(a: u8)
    ensures
        gf_mul(gf_mul(a, 2), 2) == gf_mul(a, 4),
{
    lemma_mul_two(a);
    lemma_mul_two(gf_mul(a, 2));
    lemma_mul_four(a);
}

/// The reduction step without a branch: the top bit, as zero or one, times
/// the reduction constant, merged into the shifted byte.
pub proof fn lemma_branch_free_step(a: u8)
    ensures
        (a >> 7u8) & 1 == 0 || (a >> 7u8) & 1 == 1,
        (a >> 7u8) & 1 == 1 <==> a >= 0x80,
        (a << 1u8) ^ 0u8 == a << 1u8,
{
    assert((a >> 7u8) & 1 == 0 || (a >> 7u8) & 1 == 1) by (bit_vector);
    assert((a >> 7u8) & 1 == 1 <==> a >= 0x80) by (bit_vector);
    assert((a << 1u8) ^ 0u8 == a << 1u8) by (bit_vector);
}

} // verus!
