//! Whole numbers as scalars: `i64` under wrapping arithmetic.
//!
//! With them a simulation is exact and repeats bit for bit on every machine,
//! and every law that the solver formulas rely on holds without rounding.

use vstd::prelude::*;
use vstd::arithmetic::div_mod::{
    lemma_add_mod_noop,
    lemma_mod_multiples_vanish,
    lemma_mul_mod_noop_general,
    lemma_small_mod,
};
use vstd::wrapping::i64_specs::{signed_crop, wrapping_add, wrapping_mul};
use crate::algebra::Scalar;

verus! {

/// The number of values of an `i64`.
pub open spec fn range() -> int {
    0x1_0000_0000_0000_0000
}

/// The `i64` that wrapping arithmetic makes of the whole number `x`.
pub open spec fn wrapped(x: int) -> i64 {
    signed_crop(x)
}

/// The `i64` that `x` wraps to differs from `x` by a multiple of the range.
proof fn lemma_wrapped_is_congruent(x: int)
    ensures
        wrapped(x) as int % range() == x % range(),
{
    let m = x % range();
    if m > i64::MAX as int {
        lemma_mod_multiples_vanish(-1, m, range());
        assert(range() * (-1) + m == m - range());
    }
    lemma_small_mod(m as nat, range() as nat);
}

/// Numbers that differ by a multiple of the range wrap to the same `i64`.
proof fn lemma_wrapped_of_congruent(x: int, y: int)
    requires
        x % range() == y % range(),
    ensures
        wrapped(x) == wrapped(y),
{
}

/// An `i64` wraps to itself.
proof fn lemma_wrapped_of_i64(x: i64)
    ensures
        wrapped(x as int) == x,
{
    if x >= 0 {
        lemma_small_mod(x as nat, range() as nat);
    } else {
        lemma_mod_multiples_vanish(1, x as int, range());
        lemma_small_mod((x + range()) as nat, range() as nat);
    }
}

/// A wrapping sum is the sum, wrapped.
proof fn lemma_wrapping_add(x: i64, y: i64)
    ensures
        wrapping_add(x, y) == wrapped(x + y),
{
    let s = x + y;
    if s > i64::MAX as int {
        lemma_wrapped_of_i64((s - range()) as i64);
        lemma_mod_multiples_vanish(-1, s, range());
        assert(range() * (-1) + s == s - range());
        lemma_wrapped_of_congruent(s - range(), s);
    } else if s < i64::MIN as int {
        lemma_wrapped_of_i64((s + range()) as i64);
        lemma_mod_multiples_vanish(1, s, range());
        lemma_wrapped_of_congruent(s + range(), s);
    } else {
        lemma_wrapped_of_i64(s as i64);
    }
}

/// Wrapping a term of a sum first changes nothing: `wrapped(wrapped(a) + b)`
/// is `wrapped(a + b)`.
proof fn lemma_wrapped_sum(a: int, b: int)
    ensures
        wrapped(wrapped(a) + b) == wrapped(a + b),
        wrapped(b + wrapped(a)) == wrapped(b + a),
{
    lemma_wrapped_is_congruent(a);
    lemma_add_mod_noop(wrapped(a) as int, b, range());
    lemma_add_mod_noop(a, b, range());
    lemma_wrapped_of_congruent(wrapped(a) + b, a + b);
}

/// Wrapping a factor of a product first changes nothing:
/// `wrapped(wrapped(a) * b)` is `wrapped(a * b)`.
proof fn lemma_wrapped_product(a: int, b: int)
    ensures
        wrapped(wrapped(a) * b) == wrapped(a * b),
        wrapped(b * wrapped(a)) == wrapped(b * a),
{
    lemma_wrapped_is_congruent(a);
    lemma_mul_mod_noop_general(wrapped(a) as int, b, range());
    lemma_mul_mod_noop_general(a, b, range());
    lemma_wrapped_of_congruent(wrapped(a) * b, a * b);
    lemma_mul_mod_noop_general(b, wrapped(a) as int, range());
    lemma_mul_mod_noop_general(b, a, range());
    lemma_wrapped_of_congruent(b * wrapped(a), b * a);
}

impl Scalar for i64 {
    open spec fn of(n: u8) -> i64 {
        n as i64
    }

    open spec fn sum(self, rhs: i64) -> i64 {
        wrapping_add(self, rhs)
    }

    open spec fn product(self, rhs: i64) -> i64 {
        wrapping_mul(self, rhs)
    }

    /// The quotient rounded towards zero; zero where there is none that an
    /// `i64` can hold.
    open spec fn quotient(self, rhs: i64) -> i64 {
        match self.checked_div(rhs) {
            Some(q) => q,
            None => 0,
        }
    }

    fn from_u8(n: u8) -> (r: i64) {
        n as i64
    }

    fn plus(self, rhs: i64) -> (r: i64) {
        self.wrapping_add(rhs)
    }

    fn times(self, rhs: i64) -> (r: i64) {
        self.wrapping_mul(rhs)
    }

    fn over(self, rhs: i64) -> (r: i64) {
        match self.checked_div(rhs) {
            Some(q) => q,
            None => 0,
        }
    }

    proof fn sum_associative(a: i64, b: i64, c: i64) {
        lemma_wrapping_add(a, b);
        lemma_wrapping_add(wrapping_add(a, b), c);
        lemma_wrapping_add(b, c);
        lemma_wrapping_add(a, wrapping_add(b, c));
        lemma_wrapped_sum(a + b, c as int);
        lemma_wrapped_sum(b + c, a as int);
    }

    proof fn sum_commutative(a: i64, b: i64) {
    }

    proof fn sum_zero(a: i64) {
    }

    proof fn product_associative(a: i64, b: i64, c: i64) {
        lemma_wrapped_product(a * b, c as int);
        lemma_wrapped_product(b * c, a as int);
        assert((a * b) * c == a * (b * c)) by (nonlinear_arith);
    }

    proof fn product_distributes(a: i64, b: i64, k: i64) {
        lemma_wrapping_add(a, b);
        lemma_wrapped_product(a + b, k as int);
        lemma_wrapping_add(wrapping_mul(a, k), wrapping_mul(b, k));
        lemma_wrapped_sum(a * k, wrapped(b * k) as int);
        lemma_wrapped_sum(b * k, a * k);
        assert((a + b) * k == a * k + b * k) by (nonlinear_arith);
    }

    proof fn product_zero(a: i64) {
        assert(a * 0 == 0 && 0 * a == 0) by (nonlinear_arith);
        lemma_wrapped_of_i64(0);
    }

    proof fn quotient_zero(n: u8) {
    }
}

} // verus!
