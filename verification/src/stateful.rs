//! What an entity type must offer to take part in integration.

use vstd::prelude::*;
use crate::algebra::State;

verus! {

/// An entity whose integrable quantities can be read and staged, whose
/// derivative can be read back, and whose per-step accumulators can be cleared.
pub trait Stateful: Sized {
    /// The integrable quantities of one entity; derivatives have the same type.
    type State: State;

    /// The integrable quantities the entity currently holds.
    spec fn state(&self) -> Self::State;

    /// The derivative the entity currently reports.
    spec fn dstate(&self) -> Self::State;

    /// The entity after it has taken `state` as its integrable quantities.
    spec fn with_state(self, state: Self::State) -> Self;

    /// The entity after its accumulators have been cleared.
    spec fn cleared(self) -> Self;

    /// The integrable quantities the entity currently holds.
    fn get_state(&self) -> (s: Self::State)
        ensures
            s == self.state(),
    ;

    /// Overwrites the integrable quantities; reading them back gives `state`.
    fn set_state(&mut self, state: &Self::State)
        ensures
            *final(self) == old(self).with_state(*state),
            final(self).state() == *state,
    ;

    /// The derivative that follows from the latest run of the physics.
    fn get_dstate(&self) -> (d: Self::State)
        ensures
            d == self.dstate(),
    ;

    /// Overwrites what the entity reports as its derivative.
    fn set_dstate(&mut self, dstate: Self::State)
        ensures
            final(self).dstate() == dstate,
    ;

    /// Clears the accumulators of one evaluation; the staged state stays.
    fn reset(&mut self)
        ensures
            *final(self) == old(self).cleared(),
            final(self).state() == old(self).state(),
    ;
}

} // verus!
