//! The entities of a simulation, each under its own identifier.

use vstd::prelude::*;
use vstd::std_specs::iter::IteratorSpec;
use crate::error::{IntegratorError, Operation};
use crate::state_map::StateMap;
use crate::stateful::Stateful;

verus! {

/// The entities that take part in integration. No identifier names two of
/// them.
pub struct World<T: Stateful> {
    ids: Vec<u64>,
    bodies: Vec<T>,
}

impl<T: Stateful> World<T> {
    #[verifier::type_invariant]
    spec fn well_formed(self) -> bool {
        self.ids.len() == self.bodies.len() && self.ids@.no_duplicates()
    }

    /// The identifiers of the entities, in the order in which they were added.
    pub closed spec fn ids(&self) -> Seq<u64> {
        self.ids@
    }

    /// The entities, in the order in which they were added.
    pub closed spec fn bodies(&self) -> Seq<T> {
        self.bodies@
    }

    /// The set of identifiers in use.
    pub open spec fn id_set(&self) -> Set<u64> {
        self.ids().to_set()
    }

    /// The state that each entity holds, by identifier.
    pub open spec fn states(&self) -> Map<u64, T::State> {
        Map::new(
            |e: u64| self.ids().contains(e),
            |e: u64| self.bodies()[self.ids().index_of(e)].state(),
        )
    }

    /// The entities after each has taken its state from `states`.
    pub open spec fn published(&self, states: Map<u64, T::State>) -> Seq<T> {
        Seq::new(
            self.bodies().len(),
            |i: int| self.bodies()[i].with_state(states[self.ids()[i]]),
        )
    }

    /// The entities after each has taken its state from `states` and has had
    /// its accumulators cleared.
    pub open spec fn staged(&self, states: Map<u64, T::State>) -> Seq<T> {
        Seq::new(
            self.bodies().len(),
            |i: int| self.bodies()[i].with_state(states[self.ids()[i]]).cleared(),
        )
    }

    /// The derivative that each entity reports, by identifier.
    pub open spec fn derivatives(&self) -> Map<u64, T::State> {
        Map::new(
            |e: u64| self.ids().contains(e),
            |e: u64| self.bodies()[self.ids().index_of(e)].dstate(),
        )
    }

    /// The entity at position `i` is the one that its identifier stands for
    /// in [`World::states`] and [`World::derivatives`].
    pub proof fn lemma_entity_at(self, i: int)
        requires
            0 <= i < self.ids().len(),
            self.ids().no_duplicates(),
        ensures
            self.ids().index_of(self.ids()[i]) == i,
            self.states().contains_key(self.ids()[i]),
            self.states()[self.ids()[i]] == self.bodies()[i].state(),
            self.derivatives()[self.ids()[i]] == self.bodies()[i].dstate(),
    {
        let id = self.ids()[i];
        assert(self.ids().contains(id));
        let j = self.ids().index_of(id);
        assert(self.ids()[j] == id);
    }

    /// A world without entities.
    pub fn new() -> (w: Self)
        ensures
            w.ids() == Seq::<u64>::empty(),
            w.bodies() == Seq::<T>::empty(),
    {
        World { ids: Vec::new(), bodies: Vec::new() }
    }

    /// The number of entities. There is one identifier for each, and none
    /// occurs twice.
    pub fn len(&self) -> (n: usize)
        ensures
            n == self.ids().len(),
            n == self.bodies().len(),
            self.ids().no_duplicates(),
    {
        proof {
            use_type_invariant(self);
        }
        self.ids.len()
    }

    /// The position of the entity named `id`, if there is one.
    pub fn index_of(&self, id: u64) -> (r: Option<usize>)
        ensures
            match r {
                Some(i) => i < self.ids().len() && self.ids()[i as int] == id,
                None => !self.ids().contains(id),
            },
    {
        let mut i: usize = 0;
        while i < self.ids.len()
            invariant
                i <= self.ids.len(),
                forall|j: int| 0 <= j < i ==> self.ids@[j] != id,
            decreases self.ids.len() - i,
        {
            if self.ids[i] == id {
                return Some(i);
            }
            i += 1;
        }
        None
    }

    /// Adds `body` under the identifier `id`.
    ///
    /// Fails where `id` is in use: the world then stays as it is, and `body`
    /// comes back.
    pub fn spawn(&mut self, id: u64, body: T) -> (r: Result<(), T>)
        ensures
            r is Ok <==> !old(self).ids().contains(id),
            r is Ok ==> final(self).ids() == old(self).ids().push(id) && final(self).bodies()
                == old(self).bodies().push(body),
            r matches Err(b) ==> b == body && final(self).ids() == old(self).ids()
                && final(self).bodies() == old(self).bodies(),
    {
        proof {
            use_type_invariant(&*self);
        }
        if self.index_of(id).is_some() {
            return Err(body);
        }
        let mut taken = World { ids: Vec::new(), bodies: Vec::new() };
        std::mem::swap(self, &mut taken);
        let World { mut ids, mut bodies } = taken;
        ids.push(id);
        bodies.push(body);
        *self = World { ids, bodies };
        Ok(())
    }

    /// The identifier of the entity at position `i`.
    pub fn id(&self, i: usize) -> (id: u64)
        requires
            i < self.ids().len(),
        ensures
            id == self.ids()[i as int],
    {
        self.ids[i]
    }

    /// The entity at position `i`.
    pub fn body(&self, i: usize) -> (body: &T)
        requires
            i < self.ids().len(),
        ensures
            *body == self.bodies()[i as int],
    {
        proof {
            use_type_invariant(self);
        }
        &self.bodies[i]
    }

    /// The entity at position `i`, to be changed in place.
    pub fn body_mut(&mut self, i: usize) -> (body: &mut T)
        requires
            i < old(self).ids().len(),
        ensures
            *body == old(self).bodies()[i as int],
            final(self).ids() == old(self).ids(),
            final(self).bodies() == old(self).bodies().update(i as int, *final(body)),
    {
        proof {
            use_type_invariant(&*self);
        }
        &mut self.bodies[i]
    }
}

impl<T: Stateful> World<T> {
    /// An identifier that names an entity of this world or is a key of
    /// `states`, but not both, if there is one.
    pub fn mismatch(&self, states: &StateMap<T>) -> (r: Option<u64>)
        ensures
            match r {
                Some(entity) => self.ids().contains(entity) != states@.contains_key(entity),
                None => states@.dom() == self.id_set(),
            },
    {
        broadcast use vstd::std_specs::hash::group_hash_axioms;
        proof {
            use_type_invariant(self);
        }
        let mut i: usize = 0;
        while i < self.ids.len()
            invariant
                i <= self.ids.len(),
                forall|j: int| 0 <= j < i ==> states@.contains_key(#[trigger] self.ids@[j]),
            decreases self.ids.len() - i,
        {
            if states.get(&self.ids[i]).is_none() {
                return Some(self.ids[i]);
            }
            i += 1;
        }
        assert(self.id_set().subset_of(states@.dom()));
        if states.len() == self.ids.len() {
            proof {
                self.ids@.unique_seq_to_set();
                vstd::set_lib::lemma_subset_equality(self.id_set(), states@.dom());
            }
            return None;
        }
        let ghost keys = states.0.keys().remaining().unref();
        let ghost mut done: int = 0;
        for key in it: states.0.keys()
            invariant
                it.seq().unref() == keys,
                keys.to_set() == states@.dom(),
                done == it.index(),
                forall|j: int| 0 <= j < done ==> self.ids().contains(#[trigger] keys[j]),
        {
            assert(keys[done] == *key);
            assert(keys.to_set().contains(*key));
            if self.index_of(*key).is_none() {
                return Some(*key);
            }
            proof {
                done = done + 1;
            }
        }
        assert forall|e: u64| states@.contains_key(e) implies self.ids().contains(e) by {
            assert(keys.to_set().contains(e));
        }
        assert(states@.dom() =~= self.id_set());
        None
    }
}

/// Writes `states` into the entities of `world`, and clears their
/// accumulators where `clear` is set.
fn write_states<T: Stateful>(world: &mut World<T>, states: &StateMap<T>, clear: bool) -> (r:
    Result<(), IntegratorError>)
    ensures
        r is Ok <==> states@.dom() == old(world).id_set(),
        final(world).ids() == old(world).ids(),
        r is Ok ==> final(world).states() == states@,
        r is Ok ==> final(world).bodies() == if clear {
            old(world).staged(states@)
        } else {
            old(world).published(states@)
        },
        r matches Err(e) ==> final(world).bodies() == old(world).bodies() && e.blames(
            Operation::Evaluate,
            seq![old(world).states(), states@],
        ),
{
    if let Some(entity) = world.mismatch(states) {
        proof {
            let ms = seq![world.states(), states@];
            assert(ms[0] == world.states() && ms[1] == states@);
        }
        return Err(IntegratorError::KeyMismatch { entity, operation: Operation::Evaluate });
    }
    proof {
        use_type_invariant(&*world);
    }
    let ghost before = *world;
    let mut taken = World { ids: Vec::new(), bodies: Vec::new() };
    std::mem::swap(world, &mut taken);
    let World { ids, mut bodies } = taken;
    let mut i: usize = 0;
    while i < ids.len()
        invariant
            i <= ids.len(),
            ids.len() == bodies.len(),
            ids@ == before.ids(),
            bodies.len() == before.bodies().len(),
            ids@.no_duplicates(),
            states@.dom() == ids@.to_set(),
            forall|j: int| 0 <= j < i ==> (#[trigger] bodies@[j]).state() == states@[ids@[j]],
            forall|j: int|
                0 <= j < i ==> #[trigger] bodies@[j] == if clear {
                    before.staged(states@)[j]
                } else {
                    before.published(states@)[j]
                },
            forall|j: int| i <= j < bodies.len() ==> #[trigger] bodies@[j] == before.bodies()[j],
        decreases ids.len() - i,
    {
        assert(ids@.to_set().contains(ids@[i as int]));
        if let Some(state) = states.get(&ids[i]) {
            bodies[i].set_state(state);
            if clear {
                bodies[i].reset();
            }
        }
        i += 1;
    }
    *world = World { ids, bodies };
    assert(world.states() =~= states@);
    assert(clear ==> world.bodies() =~= before.staged(states@));
    assert(!clear ==> world.bodies() =~= before.published(states@));
    Ok(())
}

/// Stages `states` on the entities of `world`: every entity takes its state
/// from the collection, and its accumulators are cleared.
///
/// Fails, and leaves the world as it is, unless the collection holds a state
/// for every entity and for nothing else.
pub fn distribute_state<T: Stateful>(world: &mut World<T>, states: &StateMap<T>) -> (r: Result<
    (),
    IntegratorError,
>)
    ensures
        r is Ok <==> states@.dom() == old(world).id_set(),
        final(world).ids() == old(world).ids(),
        r is Ok ==> final(world).bodies() == old(world).staged(states@),
        r is Ok ==> final(world).states() == states@,
        r matches Err(e) ==> final(world).bodies() == old(world).bodies() && e.blames(
            Operation::Evaluate,
            seq![old(world).states(), states@],
        ),
{
    write_states(world, states, true)
}

/// Makes `states` the state that the entities of `world` show: every entity
/// takes its state from the collection, and keeps its accumulators.
///
/// Fails, and leaves the world as it is, unless the collection holds a state
/// for every entity and for nothing else.
pub fn publish_state<T: Stateful>(world: &mut World<T>, states: &StateMap<T>) -> (r: Result<
    (),
    IntegratorError,
>)
    ensures
        r is Ok <==> states@.dom() == old(world).id_set(),
        final(world).ids() == old(world).ids(),
        r is Ok ==> final(world).bodies() == old(world).published(states@),
        r is Ok ==> final(world).states() == states@,
        r matches Err(e) ==> final(world).bodies() == old(world).bodies() && e.blames(
            Operation::Evaluate,
            seq![old(world).states(), states@],
        ),
{
    write_states(world, states, false)
}

/// A collection with the state that each entity of `world` holds.
pub fn collect_states<T: Stateful>(world: &World<T>) -> (r: StateMap<T>)
    ensures
        r@ == world.states(),
{
    proof {
        use_type_invariant(world);
    }
    let mut result = StateMap::new();
    let mut i: usize = 0;
    while i < world.ids.len()
        invariant
            i <= world.ids.len(),
            world.ids.len() == world.bodies.len(),
            world.ids@.no_duplicates(),
            forall|e: u64| #[trigger]
                result@.contains_key(e) <==> exists|j: int| 0 <= j < i && world.ids@[j] == e,
            forall|j: int|
                0 <= j < i ==> result@[#[trigger] world.ids@[j]] == world.bodies@[j].state(),
        decreases world.ids.len() - i,
    {
        result.insert(world.ids[i], world.bodies[i].get_state());
        i += 1;
    }
    assert(result@ =~= world.states());
    result
}

/// A collection with the derivative that each entity of `world` reports.
pub fn collect_state_derivatives<T: Stateful>(world: &World<T>) -> (r: StateMap<T>)
    ensures
        r@ == world.derivatives(),
{
    proof {
        use_type_invariant(world);
    }
    let mut result = StateMap::new();
    let mut i: usize = 0;
    while i < world.ids.len()
        invariant
            i <= world.ids.len(),
            world.ids.len() == world.bodies.len(),
            world.ids@.no_duplicates(),
            forall|e: u64| #[trigger]
                result@.contains_key(e) <==> exists|j: int| 0 <= j < i && world.ids@[j] == e,
            forall|j: int|
                0 <= j < i ==> result@[#[trigger] world.ids@[j]] == world.bodies@[j].dstate(),
        decreases world.ids.len() - i,
    {
        result.insert(world.ids[i], world.bodies[i].get_dstate());
        i += 1;
    }
    assert(result@ =~= world.derivatives());
    result
}

} // verus!
