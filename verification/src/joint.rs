//! A one-degree-of-freedom joint: the reference implementor of the state
//! algebra and of [`Stateful`].

use vstd::prelude::*;
use crate::algebra::{Scalar, State};
use crate::stateful::Stateful;

verus! {

/// A point mass on one axis.
#[derive(Debug)]
pub struct Joint<F: Scalar> {
    pub position: F,
    pub velocity: F,
    pub acceleration: F,
    pub force: F,
    pub mass: F,
}

/// Position and velocity of a [`Joint`], or their time derivatives.
#[derive(Debug)]
pub struct JointState<F: Scalar> {
    pub position: F,
    pub velocity: F,
}

impl<F: Scalar> Clone for JointState<F> {
    fn clone(&self) -> (r: Self)
        ensures
            r == *self,
    {
        *self
    }
}

impl<F: Scalar> Copy for JointState<F> {

}

impl<F: Scalar> JointState<F> {
    /// Adds `other` to this state in place.
    pub fn add_assign(&mut self, other: &JointState<F>)
        ensures
            *final(self) == old(self).sum(*other),
    {
        self.position = self.position.plus(other.position);
        self.velocity = self.velocity.plus(other.velocity);
    }
}

impl<F: Scalar> State for JointState<F> {
    type Scalar = F;

    open spec fn sum(self, rhs: Self) -> Self {
        JointState {
            position: self.position.sum(rhs.position),
            velocity: self.velocity.sum(rhs.velocity),
        }
    }

    open spec fn scaled(self, k: F) -> Self {
        JointState { position: self.position.product(k), velocity: self.velocity.product(k) }
    }

    fn add(self, rhs: Self) -> (r: Self) {
        JointState {
            position: self.position.plus(rhs.position),
            velocity: self.velocity.plus(rhs.velocity),
        }
    }

    fn mul(self, k: F) -> (r: Self) {
        JointState { position: self.position.times(k), velocity: self.velocity.times(k) }
    }

    proof fn sum_associative(a: Self, b: Self, c: Self) {
        F::sum_associative(a.position, b.position, c.position);
        F::sum_associative(a.velocity, b.velocity, c.velocity);
    }

    proof fn sum_commutative(a: Self, b: Self) {
        F::sum_commutative(a.position, b.position);
        F::sum_commutative(a.velocity, b.velocity);
    }

    proof fn sum_zero(a: Self, z: Self) {
        F::product_zero(z.position);
        F::product_zero(z.velocity);
        F::sum_zero(a.position);
        F::sum_zero(a.velocity);
    }

    proof fn scaled_distributes(a: Self, b: Self, k: F) {
        F::product_distributes(a.position, b.position, k);
        F::product_distributes(a.velocity, b.velocity, k);
    }

    proof fn scaled_associative(a: Self, p: F, q: F) {
        F::product_associative(a.position, p, q);
        F::product_associative(a.velocity, p, q);
    }
}

impl<F: Scalar> Stateful for Joint<F> {
    type State = JointState<F>;

    open spec fn state(&self) -> JointState<F> {
        JointState { position: self.position, velocity: self.velocity }
    }

    open spec fn dstate(&self) -> JointState<F> {
        JointState { position: self.velocity, velocity: self.acceleration }
    }

    open spec fn with_state(self, state: JointState<F>) -> Joint<F> {
        Joint { position: state.position, velocity: state.velocity, ..self }
    }

    open spec fn cleared(self) -> Joint<F> {
        Joint { acceleration: F::of(0), force: F::of(0), ..self }
    }

    fn get_state(&self) -> (s: JointState<F>) {
        JointState { position: self.position, velocity: self.velocity }
    }

    fn set_state(&mut self, state: &JointState<F>) {
        self.position = state.position;
        self.velocity = state.velocity;
    }

    fn get_dstate(&self) -> (d: JointState<F>) {
        JointState { position: self.velocity, velocity: self.acceleration }
    }

    fn set_dstate(&mut self, dstate: JointState<F>)
        ensures
            final(self).position == old(self).position,
            final(self).force == old(self).force,
            final(self).mass == old(self).mass,
    {
        self.velocity = dstate.position;
        self.acceleration = dstate.velocity;
    }

    fn reset(&mut self) {
        self.acceleration = F::from_u8(0);
        self.force = F::from_u8(0);
    }
}

} // verus!
