//! Multiplication in GF(2^32).
//!
//! A field element is a polynomial over GF(2) of degree below 32, held as the
//! `u32` whose bit `i` is the coefficient of `x^i`. Addition is XOR, and
//! products are reduced modulo the irreducible polynomial
//! `x^32 + x^7 + x^3 + x^2 + 1`.

use vstd::prelude::*;

verus! {

/// The low part of the reduction polynomial: `x^32 = x^7 + x^3 + x^2 + 1`.
pub const REDUCTION: u32 = 0x8d;

/// Number of coefficients of a field element.
pub const DEGREE: u32 = 32;

/// The coefficient of `x^i` in `a`.
pub open spec fn coefficient(a: u32, i: u32) -> bool {
    (a >> i) & 1 == 1
}

/// `a * x`.
pub open spec fn times_x(a: u32) -> u32 {
    if coefficient(a, 31) {
        (a << 1) ^ REDUCTION
    } else {
        a << 1
    }
}

/// `a * x^i`.
pub open spec fn times_power(a: u32, i: nat) -> u32
    decreases i,
{
    if i == 0 {
        a
    } else {
        times_x(times_power(a, (i - 1) as nat))
    }
}

/// The sum of `a * x^i` over the `i < k` for which `b` has the coefficient of `x^i`.
pub open spec fn partial_product(a: u32, b: u32, k: nat) -> u32
    decreases k,
{
    if k == 0 {
        0
    } else if coefficient(b, (k - 1) as u32) {
        partial_product(a, b, (k - 1) as nat) ^ times_power(a, (k - 1) as nat)
    } else {
        partial_product(a, b, (k - 1) as nat)
    }
}

/// The product of two field elements.
pub open spec fn product(a: u32, b: u32) -> u32 {
    partial_product(a, b, DEGREE as nat)
}

/// Multiplies two elements of GF(2^32).
pub fn multiply(a: u32, b: u32) -> (c: u32)
    ensures
        c == product(a, b),
{
    let mut sum: u32 = 0;
    let mut shifted: u32 = a;
    let mut i: u32 = 0;
    while i < DEGREE
        invariant
            i <= DEGREE,
            shifted == times_power(a, i as nat),
            sum == partial_product(a, b, i as nat),
        decreases DEGREE - i,
    {
        if (b >> i) & 1 == 1 {
            sum = sum ^ shifted;
        }
        shifted = if (shifted >> 31u32) & 1 == 1 {
            (shifted << 1) ^ REDUCTION
        } else {
            shifted << 1
        };
        i = i + 1;
    }
    sum
}

proof fn lemma_xor_algebra(a: u32, b: u32, c: u32, d: u32)
    by (bit_vector)
    ensures
        (a ^ b) ^ (c ^ d) == (a ^ c) ^ (b ^ d),
        (a ^ b) ^ (b ^ c) == a ^ c,
        a ^ 0 == a,
{
}

proof fn lemma_times_x_linear(a: u32, b: u32)
    ensures
        times_x(a ^ b) == times_x(a) ^ times_x(b),
        times_x(0) == 0,
{
    assert(times_x(a ^ b) == times_x(a) ^ times_x(b) && times_x(0) == 0) by (bit_vector);
}

proof fn lemma_times_power_linear(a: u32, b: u32, i: nat)
    ensures
        times_power(a ^ b, i) == times_power(a, i) ^ times_power(b, i),
        times_power(0, i) == 0,
    decreases i,
{
    if i > 0 {
        lemma_times_power_linear(a, b, (i - 1) as nat);
        lemma_times_x_linear(times_power(a, (i - 1) as nat), times_power(b, (i - 1) as nat));
    }
}

proof fn lemma_times_power_add(a: u32, i: nat, j: nat)
    ensures
        times_power(times_power(a, i), j) == times_power(a, i + j),
    decreases j,
{
    if j > 0 {
        lemma_times_power_add(a, i, (j - 1) as nat);
    }
}

/// `x^i` is the element with the single coefficient `i`.
proof fn lemma_monomial(i: u32)
    requires
        i < 32,
    ensures
        times_power(1, i as nat) == 1u32 << i,
    decreases i,
{
    if i == 0 {
        assert(1u32 << 0u32 == 1) by (bit_vector);
    } else {
        let j = (i - 1) as u32;
        lemma_monomial(j);
        assert(times_x(1u32 << j) == 1u32 << i) by (bit_vector)
            requires
                j + 1 == i,
                i < 32,
        ;
    }
}

proof fn lemma_partial_product_linear(a: u32, c: u32, b: u32, k: nat)
    ensures
        partial_product(a ^ c, b, k) == partial_product(a, b, k) ^ partial_product(c, b, k),
    decreases k,
{
    if k > 0 {
        let j = (k - 1) as nat;
        lemma_partial_product_linear(a, c, b, j);
        lemma_times_power_linear(a, c, j);
        lemma_xor_algebra(
            partial_product(a, b, j),
            partial_product(c, b, j),
            times_power(a, j),
            times_power(c, j),
        );
    } else {
        lemma_xor_algebra(0, 0, 0, 0);
    }
}

/// The terms of `a` below the power `k`.
spec fn low_terms(a: u32, k: u32) -> u32 {
    (a as u64 & ((1u64 << k) - 1) as u64) as u32
}

proof fn lemma_low_terms(a: u32, k: u32)
    requires
        k < 32,
    ensures
        low_terms(a, 0) == 0,
        low_terms(a, 32) == a,
        coefficient(a, k) ==> low_terms(a, (k + 1) as u32) == low_terms(a, k) ^ (1u32 << k),
        !coefficient(a, k) ==> low_terms(a, (k + 1) as u32) == low_terms(a, k),
        low_terms(low_terms(a, k), k) == low_terms(a, k),
{
    assert(low_terms(a, 0) == 0 && low_terms(a, 32) == a && (coefficient(a, k) ==> low_terms(
        a,
        (k + 1) as u32,
    ) == low_terms(a, k) ^ (1u32 << k)) && (!coefficient(a, k) ==> low_terms(a, (k + 1) as u32)
        == low_terms(a, k)) && low_terms(low_terms(a, k), k) == low_terms(a, k)) by (bit_vector)
        requires
            k < 32,
    ;
}

proof fn lemma_low_terms_coefficient(a: u32, k: u32, i: u32)
    requires
        i < 32,
        k <= 32,
    ensures
        coefficient(low_terms(a, k), i) == (i < k && coefficient(a, i)),
{
    assert(coefficient(low_terms(a, k), i) == (i < k && coefficient(a, i))) by (bit_vector)
        requires
            i < 32,
            k <= 32,
    ;
}

/// Only the coefficients of `b` below `k` take part in the first `k` terms of a product.
proof fn lemma_partial_product_congruent(a: u32, b: u32, c: u32, k: nat)
    requires
        forall|i: u32| #![trigger coefficient(b, i)] i < k ==> coefficient(b, i) == coefficient(c, i),
        k <= 32,
    ensures
        partial_product(a, b, k) == partial_product(a, c, k),
    decreases k,
{
    if k > 0 {
        lemma_partial_product_congruent(a, b, c, (k - 1) as nat);
        assert(coefficient(b, (k - 1) as u32) == coefficient(c, (k - 1) as u32));
    }
}

/// Multiplying `x^k` by the first `j` terms of `b` shifts those terms by `k`.
proof fn lemma_monomial_product(b: u32, k: u32, j: u32)
    requires
        k < 32,
        j <= 32,
    ensures
        partial_product(1u32 << k, b, j as nat) == times_power(low_terms(b, j), k as nat),
    decreases j,
{
    lemma_low_terms(b, 0);
    if j == 0 {
        lemma_times_power_linear(0, 0, k as nat);
    } else {
        let i = (j - 1) as u32;
        lemma_monomial_product(b, k, i);
        lemma_low_terms(b, i);
        if coefficient(b, i) {
            lemma_times_power_linear(low_terms(b, i), 1u32 << i, k as nat);
            lemma_monomial(i);
            lemma_monomial(k);
            lemma_times_power_add(1, i as nat, k as nat);
            lemma_times_power_add(1, k as nat, i as nat);
        }
    }
}

/// `value` where `a` has the coefficient of `x^i`, otherwise 0.
spec fn term(a: u32, i: u32, value: u32) -> u32 {
    if coefficient(a, i) {
        value
    } else {
        0
    }
}

/// The sum of `x^(2i)` over the `i < k` for which `a` has the coefficient of `x^i`.
spec fn square_terms(a: u32, k: nat) -> u32
    decreases k,
{
    if k == 0 {
        0
    } else {
        square_terms(a, (k - 1) as nat) ^ term(
            a,
            (k - 1) as u32,
            times_power(1, (2 * (k - 1)) as nat),
        )
    }
}

/// Squaring is additive: the cross terms of a square cancel.
proof fn lemma_square(a: u32, k: u32)
    requires
        k <= 32,
    ensures
        partial_product(low_terms(a, k), low_terms(a, k), k as nat) == square_terms(a, k as nat),
    decreases k,
{
    if k > 0 {
        let j = (k - 1) as u32;
        let y = low_terms(a, j);
        let z = low_terms(a, k);
        let e = 1u32 << j;
        lemma_square(a, j);
        lemma_low_terms(a, j);
        lemma_low_terms_coefficient(a, k, j);
        lemma_low_terms_coefficient(a, j, j);
        assert forall|i: u32| #![trigger coefficient(z, i)] i < j implies coefficient(z, i)
            == coefficient(y, i) by {
            lemma_low_terms_coefficient(a, k, i);
            lemma_low_terms_coefficient(a, j, i);
        }
        if coefficient(a, j) {
            lemma_partial_product_congruent(z, z, y, j as nat);
            lemma_partial_product_linear(y, e, y, j as nat);
            lemma_monomial_product(y, j, j);
            lemma_times_power_linear(y, e, j as nat);
            lemma_monomial(j);
            lemma_times_power_add(1, j as nat, j as nat);
            let p = partial_product(y, y, j as nat);
            let q = times_power(y, j as nat);
            let r = times_power(e, j as nat);
            lemma_xor_algebra(p, q, r, 0);
            assert(partial_product(z, z, k as nat) == partial_product(z, z, j as nat)
                ^ times_power(z, j as nat));
            assert(partial_product(z, z, k as nat) == (p ^ q) ^ (q ^ r));
        } else {
            lemma_xor_algebra(square_terms(a, j as nat), 0, 0, 0);
        }
    }
}

/// The squares `x^0, x^2, .., x^62` of the monomials.
proof fn lemma_monomial_squares()
    ensures
        times_power(1, 0) == 0x1,
        times_power(1, 2) == 0x4,
        times_power(1, 4) == 0x10,
        times_power(1, 6) == 0x40,
        times_power(1, 8) == 0x100,
        times_power(1, 10) == 0x400,
        times_power(1, 12) == 0x1000,
        times_power(1, 14) == 0x4000,
        times_power(1, 16) == 0x10000,
        times_power(1, 18) == 0x40000,
        times_power(1, 20) == 0x100000,
        times_power(1, 22) == 0x400000,
        times_power(1, 24) == 0x1000000,
        times_power(1, 26) == 0x4000000,
        times_power(1, 28) == 0x10000000,
        times_power(1, 30) == 0x40000000,
        times_power(1, 32) == 0x8d,
        times_power(1, 34) == 0x234,
        times_power(1, 36) == 0x8d0,
        times_power(1, 38) == 0x2340,
        times_power(1, 40) == 0x8d00,
        times_power(1, 42) == 0x23400,
        times_power(1, 44) == 0x8d000,
        times_power(1, 46) == 0x234000,
        times_power(1, 48) == 0x8d0000,
        times_power(1, 50) == 0x2340000,
        times_power(1, 52) == 0x8d00000,
        times_power(1, 54) == 0x23400000,
        times_power(1, 56) == 0x8d000000,
        times_power(1, 58) == 0x3400011a,
        times_power(1, 60) == 0xd0000468,
        times_power(1, 62) == 0x40001037,
{
    assert(times_x(times_x(0x1)) == 0x4
        && times_x(times_x(0x4)) == 0x10
        && times_x(times_x(0x10)) == 0x40
        && times_x(times_x(0x40)) == 0x100
        && times_x(times_x(0x100)) == 0x400
        && times_x(times_x(0x400)) == 0x1000
        && times_x(times_x(0x1000)) == 0x4000
        && times_x(times_x(0x4000)) == 0x10000
        && times_x(times_x(0x10000)) == 0x40000
        && times_x(times_x(0x40000)) == 0x100000
        && times_x(times_x(0x100000)) == 0x400000
        && times_x(times_x(0x400000)) == 0x1000000
        && times_x(times_x(0x1000000)) == 0x4000000
        && times_x(times_x(0x4000000)) == 0x10000000
        && times_x(times_x(0x10000000)) == 0x40000000
        && times_x(times_x(0x40000000)) == 0x8d
        && times_x(times_x(0x8d)) == 0x234
        && times_x(times_x(0x234)) == 0x8d0
        && times_x(times_x(0x8d0)) == 0x2340
        && times_x(times_x(0x2340)) == 0x8d00
        && times_x(times_x(0x8d00)) == 0x23400
        && times_x(times_x(0x23400)) == 0x8d000
        && times_x(times_x(0x8d000)) == 0x234000
        && times_x(times_x(0x234000)) == 0x8d0000
        && times_x(times_x(0x8d0000)) == 0x2340000
        && times_x(times_x(0x2340000)) == 0x8d00000
        && times_x(times_x(0x8d00000)) == 0x23400000
        && times_x(times_x(0x23400000)) == 0x8d000000
        && times_x(times_x(0x8d000000)) == 0x3400011a
        && times_x(times_x(0x3400011a)) == 0xd0000468
        && times_x(times_x(0xd0000468)) == 0x40001037) by (bit_vector);
    reveal_with_fuel(times_power, 3);
    assert(times_power(1, 0) == 0x1);
    assert(times_power(1, 2) == 0x4);
    assert(times_power(1, 4) == 0x10);
    assert(times_power(1, 6) == 0x40);
    assert(times_power(1, 8) == 0x100);
    assert(times_power(1, 10) == 0x400);
    assert(times_power(1, 12) == 0x1000);
    assert(times_power(1, 14) == 0x4000);
    assert(times_power(1, 16) == 0x10000);
    assert(times_power(1, 18) == 0x40000);
    assert(times_power(1, 20) == 0x100000);
    assert(times_power(1, 22) == 0x400000);
    assert(times_power(1, 24) == 0x1000000);
    assert(times_power(1, 26) == 0x4000000);
    assert(times_power(1, 28) == 0x10000000);
    assert(times_power(1, 30) == 0x40000000);
    assert(times_power(1, 32) == 0x8d);
    assert(times_power(1, 34) == 0x234);
    assert(times_power(1, 36) == 0x8d0);
    assert(times_power(1, 38) == 0x2340);
    assert(times_power(1, 40) == 0x8d00);
    assert(times_power(1, 42) == 0x23400);
    assert(times_power(1, 44) == 0x8d000);
    assert(times_power(1, 46) == 0x234000);
    assert(times_power(1, 48) == 0x8d0000);
    assert(times_power(1, 50) == 0x2340000);
    assert(times_power(1, 52) == 0x8d00000);
    assert(times_power(1, 54) == 0x23400000);
    assert(times_power(1, 56) == 0x8d000000);
    assert(times_power(1, 58) == 0x3400011a);
    assert(times_power(1, 60) == 0xd0000468);
    assert(times_power(1, 62) == 0x40001037);
}

/// The square of `a`, term by term.
spec fn square(a: u32) -> u32 {
    0u32
        ^ term(a, 0, 0x1)
        ^ term(a, 1, 0x4)
        ^ term(a, 2, 0x10)
        ^ term(a, 3, 0x40)
        ^ term(a, 4, 0x100)
        ^ term(a, 5, 0x400)
        ^ term(a, 6, 0x1000)
        ^ term(a, 7, 0x4000)
        ^ term(a, 8, 0x10000)
        ^ term(a, 9, 0x40000)
        ^ term(a, 10, 0x100000)
        ^ term(a, 11, 0x400000)
        ^ term(a, 12, 0x1000000)
        ^ term(a, 13, 0x4000000)
        ^ term(a, 14, 0x10000000)
        ^ term(a, 15, 0x40000000)
        ^ term(a, 16, 0x8d)
        ^ term(a, 17, 0x234)
        ^ term(a, 18, 0x8d0)
        ^ term(a, 19, 0x2340)
        ^ term(a, 20, 0x8d00)
        ^ term(a, 21, 0x23400)
        ^ term(a, 22, 0x8d000)
        ^ term(a, 23, 0x234000)
        ^ term(a, 24, 0x8d0000)
        ^ term(a, 25, 0x2340000)
        ^ term(a, 26, 0x8d00000)
        ^ term(a, 27, 0x23400000)
        ^ term(a, 28, 0x8d000000)
        ^ term(a, 29, 0x3400011a)
        ^ term(a, 30, 0xd0000468)
        ^ term(a, 31, 0x40001037)
}

proof fn lemma_square_fixpoint(a: u32)
    by (bit_vector)
    ensures
        square(a) == a ==> a <= 1,
        square(0) == 0,
        square(1) == 1,
{
}

proof fn lemma_product_square(a: u32)
    ensures
        product(a, a) == square(a),
{
    lemma_low_terms(a, 0);
    lemma_square(a, 32);
    lemma_monomial_squares();
    reveal_with_fuel(square_terms, 33);
}

/// The boolean check is sound: an element that equals its own square is 0 or 1,
/// because a field has no zero divisors and `a * a = a` means `a * (a + 1) = 0`.
pub proof fn law_idempotent_is_boolean(a: u32)
    ensures
        product(a, a) == a <==> a <= 1,
{
    lemma_product_square(a);
    lemma_square_fixpoint(a);
}

/// Multiplying the terms of `a` below the power `k` by `b` adds up the shifted `b`.
proof fn lemma_product_flip(a: u32, b: u32, k: u32)
    requires
        k <= 32,
    ensures
        product(low_terms(a, k), b) == partial_product(b, a, k as nat),
    decreases k,
{
    if k == 0 {
        lemma_low_terms(a, 0);
        lemma_partial_product_linear(0, 0, b, DEGREE as nat);
        lemma_xor_algebra(0, 0, 0, 0);
        let zero = product(0, b);
        assert(zero ^ zero == 0) by (bit_vector);
        assert(0u32 ^ 0u32 == 0) by (bit_vector);
    } else {
        let j = (k - 1) as u32;
        lemma_product_flip(a, b, j);
        lemma_low_terms(a, j);
        if coefficient(a, j) {
            lemma_partial_product_linear(low_terms(a, j), 1u32 << j, b, DEGREE as nat);
            lemma_monomial_product(b, j, 32);
            lemma_low_terms(b, 0);
        }
    }
}

proof fn lemma_product_commutes(a: u32, b: u32)
    ensures
        product(a, b) == product(b, a),
{
    lemma_product_flip(a, b, 32);
    lemma_low_terms(a, 0);
}

proof fn lemma_partial_product_shift(a: u32, b: u32, k: nat)
    ensures
        partial_product(times_x(a), b, k) == times_x(partial_product(a, b, k)),
    decreases k,
{
    lemma_times_x_linear(0, 0);
    if k > 0 {
        let j = (k - 1) as nat;
        lemma_partial_product_shift(a, b, j);
        lemma_times_power_add(a, 1, j);
        assert(times_power(a, 1) == times_x(a)) by {
            reveal_with_fuel(times_power, 2);
        }
        assert(times_power(a, j + 1) == times_x(times_power(a, j)));
        lemma_times_x_linear(partial_product(a, b, j), times_power(a, j));
    }
}

proof fn lemma_times_x_doubles(a: u32)
    ensures
        a < 0x8000_0000 ==> times_x(a) == 2 * a,
        a >= 0x8000_0000 ==> times_x(a) == ((2 * a - 0x1_0000_0000) as u32) ^ 0x8d,
{
    assert(a < 0x8000_0000u32 ==> times_x(a) == 2 * a) by (bit_vector);
    assert(a >= 0x8000_0000u32 ==> times_x(a) == ((2 * a - 0x1_0000_0000) as u32) ^ 0x8d)
        by (bit_vector);
}

proof fn lemma_product_zero_one(a: u32)
    ensures
        product(a, 0) == 0,
        product(a, 1) == a,
{
    lemma_monomial_product(a, 0, 32);
    lemma_low_terms(a, 0);
    assert(1u32 << 0u32 == 1) by (bit_vector);
    lemma_product_commutes(a, 1);
    lemma_product_commutes(a, 0);
    lemma_partial_product_linear(0, 0, a, DEGREE as nat);
    let zero = product(0, a);
    assert(zero ^ zero == 0) by (bit_vector);
    assert(0u32 ^ 0u32 == 0) by (bit_vector);
}

/// Multiplication commutes, and distributes over addition, which is XOR. Zero and one act as
/// they should.
pub proof fn law_multiplication_is_bilinear(
    a: u32,
    b: u32,
    c: u32,
    ab: u32,
    ba: u32,
    ac: u32,
    sum: u32,
    nothing: u32,
    once: u32,
)
    requires
        call_ensures(multiply, (a, b), ab),
        call_ensures(multiply, (b, a), ba),
        call_ensures(multiply, (a, c), ac),
        call_ensures(multiply, (a, b ^ c), sum),
        call_ensures(multiply, (a, 0), nothing),
        call_ensures(multiply, (a, 1), once),
    ensures
        call_requires(multiply, (a, b)),
        ab == ba,
        sum == ab ^ ac,
        nothing == 0,
        once == a,
{
    lemma_product_commutes(a, b);
    lemma_product_commutes(a, c);
    lemma_product_commutes(a, b ^ c);
    lemma_partial_product_linear(b, c, a, DEGREE as nat);
    lemma_product_zero_one(a);
}

/// Multiplying by `x` shifts the coefficients up, and `x^32` is `x^7 + x^3 + x^2 + 1`. To
/// multiply by `b * x` is to multiply by `b` and then by `x`. With the other laws this says
/// what every product is.
pub proof fn law_multiplication_by_x(
    a: u32,
    b: u32,
    times: u32,
    ab: u32,
    shifted: u32,
    ab_times: u32,
)
    requires
        b < 0x8000_0000,
        call_ensures(multiply, (a, 2), times),
        call_ensures(multiply, (a, b), ab),
        call_ensures(multiply, (a, (2 * b) as u32), shifted),
        call_ensures(multiply, (ab, 2), ab_times),
    ensures
        a < 0x8000_0000 ==> times == 2 * a,
        a >= 0x8000_0000 ==> times == ((2 * a - 0x1_0000_0000) as u32) ^ 0x8d,
        shifted == ab_times,
{
    let two: u32 = 2;
    assert(times_x(1) == two) by (bit_vector)
        requires
            two == 2,
    ;
    lemma_partial_product_shift(1, a, DEGREE as nat);
    lemma_product_commutes(a, 2);
    lemma_product_zero_one(a);
    lemma_product_commutes(a, 1);
    assert(times == times_x(a));
    lemma_times_x_doubles(a);
    lemma_partial_product_shift(1, ab, DEGREE as nat);
    lemma_product_commutes(ab, 2);
    lemma_product_zero_one(ab);
    lemma_product_commutes(ab, 1);
    lemma_partial_product_shift(b, a, DEGREE as nat);
    lemma_product_commutes(a, b);
    let double = (2 * b) as u32;
    lemma_product_commutes(a, double);
    lemma_times_x_doubles(b);
}

} // verus!
