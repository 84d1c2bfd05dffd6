//! Arithmetic in GF(2^8), the field of 256 elements with the reduction
//! polynomial x^8 + x^4 + x^3 + x + 1.

use vstd::prelude::*;

verus! {

/// `v` when bit `i` of `p` is set, zero otherwise.
pub open spec fn pick(v: u16, p: u16, i: u16) -> u16 {
    if (p >> i) & 1u16 != 0 {
        v
    } else {
        0u16
    }
}

/// The product of `a` and `b` as polynomials over GF(2), before reduction:
/// at most fifteen bits.
pub open spec fn clmul(a: u8, b: u8) -> u16 {
    let w = a as u16;
    let m = b as u16;
    pick(w, m, 0) ^ pick(w << 1, m, 1) ^ pick(w << 2, m, 2) ^ pick(w << 3, m, 3) ^ pick(
        w << 4,
        m,
        4,
    ) ^ pick(w << 5, m, 5) ^ pick(w << 6, m, 6) ^ pick(w << 7, m, 7)
}

/// `v` when bit `i` of `p` is set, zero otherwise.
pub open spec fn residue(v: u8, p: u16, i: u16) -> u8 {
    if (p >> i) & 1u16 != 0 {
        v
    } else {
        0u8
    }
}

/// Reduction of a fifteen-bit polynomial modulo x^8 + x^4 + x^3 + x + 1:
/// each high bit is replaced by the residue of its power of x.
pub open spec fn reduce(p: u16) -> u8 {
    ((p & 0xffu16) as u8) ^ residue(0x1bu8, p, 8) ^ residue(0x36u8, p, 9) ^ residue(0x6cu8, p, 10)
        ^ residue(0xd8u8, p, 11) ^ residue(0xabu8, p, 12) ^ residue(0x4du8, p, 13) ^ residue(
        0x9au8,
        p,
        14,
    )
}

/// Field addition (and subtraction): bitwise exclusive or.
pub open spec fn gf_add(a: u8, b: u8) -> u8 {
    a ^ b
}

/// Multiplication, bit by bit: the reduced carry-less product.
pub open spec fn mul_bits(a: u8, b: u8) -> u8 {
    reduce(clmul(a, b))
}

/// Bit by bit, multiplication is commutative.
proof fn lemma_bits_mul_commutative(a: u8, b: u8)
    by (bit_vector)
    ensures
        mul_bits(a, b) == mul_bits(b, a),
{
}

/// Bit by bit, multiplication distributes over addition.
proof fn lemma_bits_mul_distributive(a: u8, b: u8, c: u8)
    by (bit_vector)
    ensures
        mul_bits(a, b ^ c) == mul_bits(a, b) ^ mul_bits(a, c),
{
}

/// `v` when bit `i` of `c` is set, zero otherwise.
pub open spec fn sel(v: u8, c: u8, i: u8) -> u8 {
    if (c >> i) & 1u8 != 0 {
        v
    } else {
        0u8
    }
}

/// A product is the sum of the products with the powers of two that make
/// up the second factor.
proof fn lemma_mul_by_bits(a: u8, c: u8)
    by (bit_vector)
    ensures
        mul_bits(a, c) == sel(mul_bits(a, 1), c, 0) ^ sel(mul_bits(a, 2), c, 1) ^ sel(mul_bits(a, 4), c, 2)
            ^ sel(mul_bits(a, 8), c, 3) ^ sel(mul_bits(a, 16), c, 4) ^ sel(mul_bits(a, 32), c, 5) ^ sel(
            mul_bits(a, 64),
            c,
            6,
        ) ^ sel(mul_bits(a, 128), c, 7),
{
}

/// Multiplication is associative where the last factor is two.
proof fn lemma_mul_associative_double(a: u8, b: u8, ab: u8, b2: u8)
    by (bit_vector)
    requires
        ab == mul_bits(a, b),
        b2 == mul_bits(b, 2),
    ensures
        mul_bits(ab, 2) == mul_bits(a, b2),
{
}

/// Doubling the product with a power of two gives the product with the
/// next power of two.
proof fn lemma_double_power(x: u8)
    by (bit_vector)
    ensures
        mul_bits(mul_bits(x, 1), 2) == mul_bits(x, 2),
        mul_bits(mul_bits(x, 2), 2) == mul_bits(x, 4),
        mul_bits(mul_bits(x, 4), 2) == mul_bits(x, 8),
        mul_bits(mul_bits(x, 8), 2) == mul_bits(x, 16),
        mul_bits(mul_bits(x, 16), 2) == mul_bits(x, 32),
        mul_bits(mul_bits(x, 32), 2) == mul_bits(x, 64),
        mul_bits(mul_bits(x, 64), 2) == mul_bits(x, 128),
{
}

/// Bit by bit, zero annihilates and one is neutral.
proof fn lemma_bits_mul_zero(a: u8)
    by (bit_vector)
    ensures
        mul_bits(a, 0) == 0,
        mul_bits(0, a) == 0,
        mul_bits(a, 1) == a,
        mul_bits(1, a) == a,
{
}

/// A factor can be taken into a selection.
proof fn lemma_mul_sel(a: u8, v: u8, c: u8, i: u8)
    ensures
        mul_bits(a, sel(v, c, i)) == sel(mul_bits(a, v), c, i),
{
    lemma_bits_mul_zero(a);
}

/// Bit by bit, multiplication is associative: both sides are unfolded over
/// the bits of the last factor, where associativity holds by doubling.
proof fn lemma_bits_mul_associative(a: u8, b: u8, c: u8)
    ensures
        mul_bits(mul_bits(a, b), c) == mul_bits(a, mul_bits(b, c)),
{
    let ab = mul_bits(a, b);
    let t0 = mul_bits(b, 1);
    let t1 = mul_bits(b, 2);
    let t2 = mul_bits(b, 4);
    let t3 = mul_bits(b, 8);
    let t4 = mul_bits(b, 16);
    let t5 = mul_bits(b, 32);
    let t6 = mul_bits(b, 64);
    let t7 = mul_bits(b, 128);
    let s0 = sel(t0, c, 0);
    let s1 = sel(t1, c, 1);
    let s2 = sel(t2, c, 2);
    let s3 = sel(t3, c, 3);
    let s4 = sel(t4, c, 4);
    let s5 = sel(t5, c, 5);
    let s6 = sel(t6, c, 6);
    let s7 = sel(t7, c, 7);
    lemma_mul_by_bits(b, c);
    lemma_mul_by_bits(ab, c);
    lemma_bits_mul_zero(ab);
    lemma_bits_mul_zero(b);
    lemma_double_power(ab);
    lemma_double_power(b);
    lemma_mul_associative_double(a, t0, mul_bits(a, t0), t1);
    lemma_mul_associative_double(a, t1, mul_bits(a, t1), t2);
    lemma_mul_associative_double(a, t2, mul_bits(a, t2), t3);
    lemma_mul_associative_double(a, t3, mul_bits(a, t3), t4);
    lemma_mul_associative_double(a, t4, mul_bits(a, t4), t5);
    lemma_mul_associative_double(a, t5, mul_bits(a, t5), t6);
    lemma_mul_associative_double(a, t6, mul_bits(a, t6), t7);
    lemma_bits_mul_distributive(a, s0 ^ s1 ^ s2 ^ s3 ^ s4 ^ s5 ^ s6, s7);
    lemma_bits_mul_distributive(a, s0 ^ s1 ^ s2 ^ s3 ^ s4 ^ s5, s6);
    lemma_bits_mul_distributive(a, s0 ^ s1 ^ s2 ^ s3 ^ s4, s5);
    lemma_bits_mul_distributive(a, s0 ^ s1 ^ s2 ^ s3, s4);
    lemma_bits_mul_distributive(a, s0 ^ s1 ^ s2, s3);
    lemma_bits_mul_distributive(a, s0 ^ s1, s2);
    lemma_bits_mul_distributive(a, s0, s1);
    lemma_mul_sel(a, t0, c, 0);
    lemma_mul_sel(a, t1, c, 1);
    lemma_mul_sel(a, t2, c, 2);
    lemma_mul_sel(a, t3, c, 3);
    lemma_mul_sel(a, t4, c, 4);
    lemma_mul_sel(a, t5, c, 5);
    lemma_mul_sel(a, t6, c, 6);
    lemma_mul_sel(a, t7, c, 7);
}

/// The 254th power of `a`, by squaring: the inverse of a nonzero element.
pub open spec fn inv_bits(a: u8) -> u8 {
    let a2 = mul_bits(a, a);
    let a4 = mul_bits(a2, a2);
    let a8 = mul_bits(a4, a4);
    let a16 = mul_bits(a8, a8);
    let a32 = mul_bits(a16, a16);
    let a64 = mul_bits(a32, a32);
    let a128 = mul_bits(a64, a64);
    let a6 = mul_bits(a4, a2);
    let a14 = mul_bits(a8, a6);
    let a30 = mul_bits(a16, a14);
    let a62 = mul_bits(a32, a30);
    let a126 = mul_bits(a64, a62);
    mul_bits(a128, a126)
}

/// The chain of squarings and products that computes the 254th power
/// yields the inverse.
proof fn lemma_inverse_bits(
    a: u8,
    a2: u8,
    a4: u8,
    a8: u8,
    a16: u8,
    a32: u8,
    a64: u8,
    a128: u8,
    a6: u8,
    a14: u8,
    a30: u8,
    a62: u8,
    a126: u8,
    r: u8,
)
    by (bit_vector)
    requires
        a2 == mul_bits(a, a),
        a4 == mul_bits(a2, a2),
        a8 == mul_bits(a4, a4),
        a16 == mul_bits(a8, a8),
        a32 == mul_bits(a16, a16),
        a64 == mul_bits(a32, a32),
        a128 == mul_bits(a64, a64),
        a6 == mul_bits(a4, a2),
        a14 == mul_bits(a8, a6),
        a30 == mul_bits(a16, a14),
        a62 == mul_bits(a32, a30),
        a126 == mul_bits(a64, a62),
        r == mul_bits(a128, a126),
    ensures
        a != 0 ==> mul_bits(a, r) == 1,
        a == 0 ==> r == 0,
{
}

/// Bit by bit, every nonzero element times its 254th power is one.
proof fn lemma_bits_inverse(a: u8)
    ensures
        a != 0 ==> mul_bits(a, inv_bits(a)) == 1,
        a == 0 ==> inv_bits(a) == 0,
{
    let a2 = mul_bits(a, a);
    let a4 = mul_bits(a2, a2);
    let a8 = mul_bits(a4, a4);
    let a16 = mul_bits(a8, a8);
    let a32 = mul_bits(a16, a16);
    let a64 = mul_bits(a32, a32);
    let a128 = mul_bits(a64, a64);
    let a6 = mul_bits(a4, a2);
    let a14 = mul_bits(a8, a6);
    let a30 = mul_bits(a16, a14);
    let a62 = mul_bits(a32, a30);
    let a126 = mul_bits(a64, a62);
    lemma_inverse_bits(a, a2, a4, a8, a16, a32, a64, a128, a6, a14, a30, a62, a126, mul_bits(a128, a126));
}

/// Addition is commutative.
pub proof fn lemma_add_commutative(a: u8, b: u8)
    by (bit_vector)
    ensures
        gf_add(a, b) == gf_add(b, a),
{
}

/// Addition is associative.
pub proof fn lemma_add_associative(a: u8, b: u8, c: u8)
    by (bit_vector)
    ensures
        gf_add(gf_add(a, b), c) == gf_add(a, gf_add(b, c)),
{
}

/// Every element is its own negative, and zero is neutral.
pub proof fn lemma_add_cancels(a: u8)
    by (bit_vector)
    ensures
        gf_add(a, a) == 0,
        gf_add(a, 0) == a,
        gf_add(0, a) == a,
{
}

/// The last two terms of a sum of three can change places.
pub proof fn lemma_add_swap(a: u8, b: u8, c: u8)
    by (bit_vector)
    ensures
        gf_add(gf_add(a, b), c) == gf_add(gf_add(a, c), b),
{
}

/// The inner terms of a sum of two sums can change places.
pub proof fn lemma_add_interchange(a: u8, b: u8, c: u8, d: u8)
    by (bit_vector)
    ensures
        gf_add(gf_add(a, b), gf_add(c, d)) == gf_add(gf_add(a, c), gf_add(b, d)),
{
}

/// Two elements are equal exactly when their sum is zero.
pub proof fn lemma_add_zero_iff_equal(a: u8, b: u8)
    by (bit_vector)
    ensures
        gf_add(a, b) == 0 <==> a == b,
{
}

/// Field multiplication.
pub closed spec fn gf_mul(a: u8, b: u8) -> u8 {
    mul_bits(a, b)
}

/// The multiplicative inverse of a nonzero element; zero for zero.
pub closed spec fn gf_inv(a: u8) -> u8 {
    inv_bits(a)
}

/// Multiplication is commutative.
pub proof fn lemma_mul_commutative(a: u8, b: u8)
    ensures
        gf_mul(a, b) == gf_mul(b, a),
{
    lemma_bits_mul_commutative(a, b);
}

/// Multiplication distributes over addition.
pub proof fn lemma_mul_distributive(a: u8, b: u8, c: u8)
    ensures
        gf_mul(a, gf_add(b, c)) == gf_add(gf_mul(a, b), gf_mul(a, c)),
{
    lemma_bits_mul_distributive(a, b, c);
}

/// Multiplication is associative.
pub proof fn lemma_mul_associative(a: u8, b: u8, c: u8)
    ensures
        gf_mul(gf_mul(a, b), c) == gf_mul(a, gf_mul(b, c)),
{
    lemma_bits_mul_associative(a, b, c);
}

/// Zero annihilates and one is neutral.
pub proof fn lemma_mul_zero(a: u8)
    ensures
        gf_mul(a, 0) == 0,
        gf_mul(0, a) == 0,
        gf_mul(a, 1) == a,
        gf_mul(1, a) == a,
{
    lemma_bits_mul_zero(a);
}

/// Every nonzero element times its inverse is one.
pub proof fn lemma_inverse(a: u8)
    ensures
        a != 0 ==> gf_mul(a, gf_inv(a)) == 1,
        a == 0 ==> gf_inv(a) == 0,
{
    lemma_bits_inverse(a);
}

/// Multiplication distributes over addition from the right as well.
pub proof fn lemma_mul_distributive_left(a: u8, b: u8, c: u8)
    ensures
        gf_mul(gf_add(a, b), c) == gf_add(gf_mul(a, c), gf_mul(b, c)),
{
    lemma_mul_commutative(gf_add(a, b), c);
    lemma_mul_distributive(c, a, b);
    lemma_mul_commutative(c, a);
    lemma_mul_commutative(c, b);
}

/// The first two factors of a product of three can change places.
pub proof fn lemma_mul_swap_inner(a: u8, b: u8, c: u8)
    ensures
        gf_mul(a, gf_mul(b, c)) == gf_mul(b, gf_mul(a, c)),
{
    lemma_mul_associative(a, b, c);
    lemma_mul_commutative(a, b);
    lemma_mul_associative(b, a, c);
}

/// The field has no zero divisors.
pub proof fn lemma_no_zero_divisor(d: u8, w: u8)
    requires
        d != 0,
        gf_mul(d, w) == 0,
    ensures
        w == 0,
{
    let i = gf_inv(d);
    lemma_inverse(d);
    lemma_mul_commutative(d, i);
    lemma_mul_associative(i, d, w);
    lemma_mul_zero(i);
    lemma_mul_zero(w);
}

/// `v` when bit `i` of `p` is set, zero otherwise.
fn select(v: u16, p: u16, i: u16) -> (r: u16)
    requires
        i < 16,
    ensures
        r == pick(v, p, i),
{
    if (p >> i) & 1u16 != 0 {
        v
    } else {
        0u16
    }
}

/// `v` when bit `i` of `p` is set, zero otherwise.
fn select_residue(v: u8, p: u16, i: u16) -> (r: u8)
    requires
        i < 16,
    ensures
        r == residue(v, p, i),
{
    if (p >> i) & 1u16 != 0 {
        v
    } else {
        0u8
    }
}

/// The product of two field elements.
pub fn multiply(a: u8, b: u8) -> (r: u8)
    ensures
        r == gf_mul(a, b),
{
    let w: u16 = a as u16;
    let m: u16 = b as u16;
    let p: u16 = select(w, m, 0) ^ select(w << 1, m, 1) ^ select(w << 2, m, 2) ^ select(
        w << 3,
        m,
        3,
    ) ^ select(w << 4, m, 4) ^ select(w << 5, m, 5) ^ select(w << 6, m, 6) ^ select(w << 7, m, 7);
    let masked: u16 = p & 0xffu16;
    assert(masked < 0x100) by (bit_vector)
        requires
            masked == p & 0xffu16,
    ;
    let low: u8 = masked as u8;
    low ^ select_residue(0x1bu8, p, 8) ^ select_residue(0x36u8, p, 9) ^ select_residue(
        0x6cu8,
        p,
        10,
    ) ^ select_residue(0xd8u8, p, 11) ^ select_residue(0xabu8, p, 12) ^ select_residue(
        0x4du8,
        p,
        13,
    ) ^ select_residue(0x9au8, p, 14)
}

/// The multiplicative inverse of a field element; zero for zero.
pub fn invert(a: u8) -> (r: u8)
    ensures
        r == gf_inv(a),
{
    let a2 = multiply(a, a);
    let a4 = multiply(a2, a2);
    let a8 = multiply(a4, a4);
    let a16 = multiply(a8, a8);
    let a32 = multiply(a16, a16);
    let a64 = multiply(a32, a32);
    let a128 = multiply(a64, a64);
    let a6 = multiply(a4, a2);
    let a14 = multiply(a8, a6);
    let a30 = multiply(a16, a14);
    let a62 = multiply(a32, a30);
    let a126 = multiply(a64, a62);
    multiply(a128, a126)
}

} // verus!
