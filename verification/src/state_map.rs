//! Entity-indexed collections of states and their pointwise arithmetic.

use std::collections::HashMap;
use vstd::prelude::*;
use vstd::std_specs::iter::IteratorSpec;
use crate::algebra::{is_zero, State};
use crate::error::{IntegratorError, Operation};
use crate::stateful::Stateful;

verus! {

/// The pointwise sum of two collections over the keys of `a`.
pub open spec fn map_sum<S: State>(a: Map<u64, S>, b: Map<u64, S>) -> Map<u64, S> {
    Map::new(|e: u64| a.contains_key(e), |e: u64| a[e].sum(b[e]))
}

/// Every entry of `a` scaled by `k`.
pub open spec fn map_scaled<S: State>(a: Map<u64, S>, k: S::Scalar) -> Map<u64, S> {
    Map::new(|e: u64| a.contains_key(e), |e: u64| a[e].scaled(k))
}

/// Whether `entity` is a key of exactly one of the two collections.
pub open spec fn in_one_only<S>(entity: u64, a: Map<u64, S>, b: Map<u64, S>) -> bool {
    a.contains_key(entity) != b.contains_key(entity)
}

/// Whether `entity` is a key of some of the collections `ms` but not of all.
pub open spec fn in_some_only<S>(entity: u64, ms: Seq<Map<u64, S>>) -> bool {
    exists|i: int, j: int|
        0 <= i < ms.len() && 0 <= j < ms.len() && (#[trigger] ms[i]).contains_key(entity) && !(
        #[trigger] ms[j]).contains_key(entity)
}

/// Whether all the collections `ms` hold the same entities.
pub open spec fn same_keys<S>(ms: Seq<Map<u64, S>>) -> bool {
    forall|i: int| 0 <= i < ms.len() ==> (#[trigger] ms[i]).dom() == ms[0].dom()
}

/// Whether every state in `d` is a zero state.
pub open spec fn all_zero<S: State>(d: Map<u64, S>) -> bool {
    forall|e: u64| d.contains_key(e) ==> is_zero(#[trigger] d[e])
}

/// One state per entity, keyed by the entity's identifier.
pub struct StateMap<T: Stateful>(pub HashMap<u64, T::State>);

impl<T: Stateful> View for StateMap<T> {
    type V = Map<u64, T::State>;

    open spec fn view(&self) -> Map<u64, T::State> {
        self.0@
    }
}

impl<T: Stateful> StateMap<T> {
    /// An empty collection.
    pub fn new() -> (r: Self)
        ensures
            r@ == Map::<u64, T::State>::empty(),
    {
        StateMap(HashMap::new())
    }

    /// The state of `entity`, if the collection holds one.
    pub fn get(&self, entity: &u64) -> (r: Option<&T::State>)
        ensures
            match r {
                Some(s) => self@.contains_key(*entity) && *s == self@[*entity],
                None => !self@.contains_key(*entity),
            },
    {
        broadcast use vstd::std_specs::hash::group_hash_axioms;
        self.0.get(entity)
    }

    /// Sets the state of `entity`, replacing an earlier one.
    pub fn insert(&mut self, entity: u64, state: T::State)
        ensures
            final(self)@ == old(self)@.insert(entity, state),
    {
        broadcast use vstd::std_specs::hash::group_hash_axioms;
        self.0.insert(entity, state);
    }

    /// The number of entities in the collection.
    pub fn len(&self) -> (n: usize)
        ensures
            n == self@.len(),
    {
        broadcast use vstd::std_specs::hash::group_hash_axioms;
        self.0.len()
    }

    /// An entity that `other` lacks, if this collection has one.
    pub fn missing_from(&self, other: &Self) -> (r: Option<u64>)
        ensures
            match r {
                Some(entity) => self@.contains_key(entity) && !other@.contains_key(entity),
                None => self@.dom().subset_of(other@.dom()),
            },
    {
        broadcast use vstd::std_specs::hash::group_hash_axioms;
        let ghost keys = self.0.keys().remaining().unref();
        let ghost mut done: int = 0;
        for entity in it: self.0.keys()
            invariant
                it.seq().unref() == keys,
                keys.to_set() == self@.dom(),
                done == it.index(),
                forall|i: int| 0 <= i < done ==> other@.contains_key(#[trigger] keys[i]),
        {
            assert(keys[done] == *entity);
            assert(keys.to_set().contains(*entity));
            if !other.0.contains_key(entity) {
                return Some(*entity);
            }
            proof {
                done = done + 1;
            }
        }
        assert forall|e: u64| self@.contains_key(e) implies other@.contains_key(e) by {
            assert(keys.to_set().contains(e));
        }
        None
    }

    /// An entity that is a key of one of the two collections only, if there
    /// is one.
    pub fn mismatch(&self, other: &Self) -> (r: Option<u64>)
        ensures
            match r {
                Some(entity) => in_one_only(entity, self@, other@),
                None => self@.dom() == other@.dom(),
            },
    {
        broadcast use vstd::std_specs::hash::group_hash_axioms;
        match self.missing_from(other) {
            Some(entity) => Some(entity),
            None => {
                if self.0.len() == other.0.len() {
                    proof {
                        vstd::set_lib::lemma_subset_equality(self@.dom(), other@.dom());
                    }
                    None
                } else {
                    let r = other.missing_from(self);
                    assert(r is None ==> self@.dom() =~= other@.dom());
                    r
                }
            },
        }
    }

    /// Every entry scaled by `rhs`.
    pub fn mul(&self, rhs: <T::State as State>::Scalar) -> (r: Self)
        ensures
            r@ == map_scaled(self@, rhs),
    {
        broadcast use vstd::std_specs::hash::group_hash_axioms;
        let mut result: HashMap<u64, T::State> = HashMap::new();
        let ghost pairs = self.0.iter().remaining();
        let ghost mut done: int = 0;
        for pair in it: self.0.iter()
            invariant
                it.seq() == pairs,
                pairs == self.0.iter().remaining(),
                done == it.index(),
                forall|e: u64| #[trigger]
                    result@.contains_key(e) <==> exists|i: int| 0 <= i < done && *pairs[i].0 == e,
                forall|e: u64| #[trigger]
                    result@.contains_key(e) ==> self@.contains_key(e) && result@[e]
                        == self@[e].scaled(rhs),
        {
            assert(pairs[done] == pair);
            assert(self@.contains_key(*pairs[done].0));
            let (entity, state) = pair;
            result.insert(*entity, state.mul(rhs));
            proof {
                done = done + 1;
            }
        }
        assert forall|e: u64| self@.contains_key(e) implies result@.contains_key(e) by {
            let i = pairs.index_of((&e, &self@[e]));
            assert(*pairs[i].0 == e);
        }
        assert(result@ =~= map_scaled(self@, rhs));
        StateMap(result)
    }

    /// The pointwise sum of two collections over the same entities.
    ///
    /// Fails, and names an entity that only one of them holds, when their
    /// keys differ.
    pub fn add(&self, rhs: &Self) -> (r: Result<Self, IntegratorError>)
        ensures
            match r {
                Ok(sum) => self@.dom() == rhs@.dom() && sum@ == map_sum(self@, rhs@),
                Err(e) => e matches IntegratorError::KeyMismatch { entity, operation }
                    && operation == Operation::Add && in_one_only(entity, self@, rhs@),
            },
    {
        broadcast use vstd::std_specs::hash::group_hash_axioms;
        if let Some(entity) = self.mismatch(rhs) {
            return Err(IntegratorError::KeyMismatch { entity, operation: Operation::Add });
        }
        let mut result: HashMap<u64, T::State> = HashMap::new();
        let ghost pairs = self.0.iter().remaining();
        let ghost mut done: int = 0;
        for pair in it: self.0.iter()
            invariant
                it.seq() == pairs,
                pairs == self.0.iter().remaining(),
                done == it.index(),
                self@.dom() == rhs@.dom(),
                forall|e: u64| #[trigger]
                    result@.contains_key(e) <==> exists|i: int| 0 <= i < done && *pairs[i].0 == e,
                forall|e: u64| #[trigger]
                    result@.contains_key(e) ==> self@.contains_key(e) && result@[e]
                        == self@[e].sum(rhs@[e]),
        {
            assert(pairs[done] == pair);
            assert(self@.contains_key(*pairs[done].0));
            let (entity, state) = pair;
            assert(rhs@.dom().contains(*entity));
            if let Some(other) = rhs.0.get(entity) {
                result.insert(*entity, state.add(*other));
            }
            proof {
                done = done + 1;
            }
        }
        assert forall|e: u64| self@.contains_key(e) implies result@.contains_key(e) by {
            let i = pairs.index_of((&e, &self@[e]));
            assert(*pairs[i].0 == e);
        }
        assert(result@ =~= map_sum(self@, rhs@));
        Ok(StateMap(result))
    }
}

impl<T: Stateful> Clone for StateMap<T> {
    fn clone(&self) -> (r: Self)
        ensures
            r@ == self@,
    {
        StateMap(self.0.clone())
    }
}

} // verus!
