//! The algebra that scalars and per-entity states must provide.
//!
//! Both traits pair each executable operation with a specification function
//! and list, as proof obligations, the laws that the solver formulas rely on.

use vstd::prelude::*;

verus! {

/// The numbers that measure time and scale states: a step size, an instant,
/// a weight in a solver formula.
pub trait Scalar: Copy {
    /// The scalar that stands for the whole number `n`.
    spec fn of(n: u8) -> Self;

    /// The sum of two scalars.
    spec fn sum(self, rhs: Self) -> Self;

    /// The product of two scalars.
    spec fn product(self, rhs: Self) -> Self;

    /// The quotient of two scalars.
    spec fn quotient(self, rhs: Self) -> Self;

    /// The scalar that stands for the whole number `n`.
    fn from_u8(n: u8) -> (r: Self)
        ensures
            r == Self::of(n),
    ;

    /// The sum of two scalars.
    fn plus(self, rhs: Self) -> (r: Self)
        ensures
            r == self.sum(rhs),
    ;

    /// The product of two scalars.
    fn times(self, rhs: Self) -> (r: Self)
        ensures
            r == self.product(rhs),
    ;

    /// The quotient of two scalars.
    fn over(self, rhs: Self) -> (r: Self)
        ensures
            r == self.quotient(rhs),
    ;

    /// Addition is associative.
    proof fn sum_associative(a: Self, b: Self, c: Self)
        ensures
            a.sum(b).sum(c) == a.sum(b.sum(c)),
    ;

    /// Addition is commutative.
    proof fn sum_commutative(a: Self, b: Self)
        ensures
            a.sum(b) == b.sum(a),
    ;

    /// Adding zero changes nothing.
    proof fn sum_zero(a: Self)
        ensures
            a.sum(Self::of(0)) == a,
    ;

    /// Multiplication is associative.
    proof fn product_associative(a: Self, b: Self, c: Self)
        ensures
            a.product(b).product(c) == a.product(b.product(c)),
    ;

    /// Multiplication distributes over addition.
    proof fn product_distributes(a: Self, b: Self, k: Self)
        ensures
            a.sum(b).product(k) == a.product(k).sum(b.product(k)),
    ;

    /// A product with a zero factor is zero.
    proof fn product_zero(a: Self)
        ensures
            a.product(Self::of(0)) == Self::of(0),
            Self::of(0).product(a) == Self::of(0),
    ;

    /// Zero divided by a positive whole number is zero.
    proof fn quotient_zero(n: u8)
        requires
            n > 0,
        ensures
            Self::of(0).quotient(Self::of(n)) == Self::of(0),
    ;
}

/// The integrable quantities of one entity, and equally their time
/// derivatives: values that can be added and scaled componentwise.
pub trait State: Copy {
    /// The numbers that scale this state.
    type Scalar: Scalar;

    /// The componentwise sum.
    spec fn sum(self, rhs: Self) -> Self;

    /// Every component multiplied by `k`.
    spec fn scaled(self, k: Self::Scalar) -> Self;

    /// The componentwise sum.
    fn add(self, rhs: Self) -> (r: Self)
        ensures
            r == self.sum(rhs),
    ;

    /// Every component multiplied by `k`.
    fn mul(self, k: Self::Scalar) -> (r: Self)
        ensures
            r == self.scaled(k),
    ;

    /// Addition is associative.
    proof fn sum_associative(a: Self, b: Self, c: Self)
        ensures
            a.sum(b).sum(c) == a.sum(b.sum(c)),
    ;

    /// Addition is commutative.
    proof fn sum_commutative(a: Self, b: Self)
        ensures
            a.sum(b) == b.sum(a),
    ;

    /// Adding a state that was scaled by zero changes nothing.
    proof fn sum_zero(a: Self, z: Self)
        ensures
            a.sum(z.scaled(Self::Scalar::of(0))) == a,
    ;

    /// Scaling distributes over addition.
    proof fn scaled_distributes(a: Self, b: Self, k: Self::Scalar)
        ensures
            a.sum(b).scaled(k) == a.scaled(k).sum(b.scaled(k)),
    ;

    /// Scaling by a product is scaling twice.
    proof fn scaled_associative(a: Self, p: Self::Scalar, q: Self::Scalar)
        ensures
            a.scaled(p.product(q)) == a.scaled(p).scaled(q),
    ;
}

/// Whether `z` is a zero state: scaling it by zero leaves it as it is.
pub open spec fn is_zero<S: State>(z: S) -> bool {
    z == z.scaled(S::Scalar::of(0))
}

/// Adding a zero state changes nothing.
pub proof fn lemma_sum_with_zero<S: State>(a: S, z: S)
    requires
        is_zero(z),
    ensures
        a.sum(z) == a,
{
    S::sum_zero(a, z);
}

/// A zero state stays zero under scaling.
pub proof fn lemma_zero_scaled<S: State>(z: S, k: S::Scalar)
    requires
        is_zero(z),
    ensures
        z.scaled(k) == z,
{
    let zero = S::Scalar::of(0);
    S::scaled_associative(z, zero, k);
    S::Scalar::product_zero(k);
}

} // verus!
