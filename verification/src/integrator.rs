//! One fixed step: the derivative evaluator, the four schemes as drivers of
//! it, and the orchestrator that replaces the live state.

use vstd::prelude::*;
use crate::algebra::{Scalar, State};
use crate::error::{IntegratorError, Operation};
use crate::laws::{
    lemma_step_keeps_keys,
    lemma_zero_derivative_invariance_of_steps,
    lemma_zero_step_identity_of_steps,
};
use crate::solver::{advanced, heun_update, rk4_update, Solver};
use crate::state_map::{all_zero, StateMap};
use crate::stateful::Stateful;
use crate::world::{
    collect_state_derivatives,
    collect_states,
    distribute_state,
    publish_state,
    World,
};

verus! {

/// The scalars that scale the states of `T`.
pub type ScalarOf<T> = <<T as Stateful>::State as State>::Scalar;

/// The live state of a simulation.
pub struct PhysicsState<T: Stateful> {
    /// The state of every entity at the instant `time`.
    pub states: StateMap<T>,
    /// The derivatives that the latest evaluation reported.
    pub dstates: StateMap<T>,
    /// The instant that the simulation has reached.
    pub time: ScalarOf<T>,
}

/// Whether `e` is a key mismatch on an entity that either `world` or
/// `states` lacks, but not both.
pub open spec fn mismatch_with<T: Stateful>(
    e: IntegratorError,
    world: World<T>,
    states: Map<u64, T::State>,
) -> bool {
    e matches IntegratorError::KeyMismatch { entity, operation } && world.ids().contains(entity)
        != states.contains_key(entity)
}

/// Whether `physics` can run on every world at every instant.
pub open spec fn runs_anywhere<T: Stateful, F: Fn(World<T>, ScalarOf<T>) -> World<T>>(
    physics: F,
) -> bool {
    forall|w: World<T>, t: ScalarOf<T>| call_requires(physics, (w, t))
}

/// Whether `physics` always hands back the entities that it was given.
pub open spec fn keeps_entities<T: Stateful, F: Fn(World<T>, ScalarOf<T>) -> World<T>>(
    physics: F,
) -> bool {
    forall|w: World<T>, t: ScalarOf<T>, after: World<T>| #[trigger]
        call_ensures(physics, (w, t), after) ==> after.id_set() == w.id_set()
}

/// Whether every entity reports a zero derivative whenever `physics` has run.
pub open spec fn reports_zero<T: Stateful, F: Fn(World<T>, ScalarOf<T>) -> World<T>>(
    physics: F,
) -> bool {
    forall|w: World<T>, t: ScalarOf<T>, after: World<T>| #[trigger]
        call_ensures(physics, (w, t), after) ==> all_zero(after.derivatives())
}

/// Whether every entity reports the derivative `d` whenever `physics` has run.
pub open spec fn reports_constant<T: Stateful, F: Fn(World<T>, ScalarOf<T>) -> World<T>>(
    physics: F,
    d: T::State,
) -> bool {
    forall|w: World<T>, t: ScalarOf<T>, after: World<T>, e: u64| #[trigger]
        call_ensures(physics, (w, t), after) && #[trigger] after.derivatives().contains_key(e)
            ==> after.derivatives()[e] == d
}

/// Whether `d` can result from one evaluation at `snapshot` and the instant
/// `t`: the entities of `before`, each with its state from `snapshot` and
/// with its accumulators cleared, were handed to `physics` at `t`; `after`
/// came back, and `d` is what its entities report.
pub open spec fn evaluated<T: Stateful, F: Fn(World<T>, ScalarOf<T>) -> World<T>>(
    physics: F,
    before: World<T>,
    snapshot: Map<u64, T::State>,
    t: ScalarOf<T>,
    after: World<T>,
    d: Map<u64, T::State>,
) -> bool {
    &&& d == after.derivatives()
    &&& exists|staged: World<T>| #[trigger]
        call_ensures(physics, (staged, t), after) && staged.ids() == before.ids()
            && staged.bodies() == before.staged(snapshot)
}

/// Whether the worlds `ws` and the derivatives `ds` can be those of one step
/// of `solver` from the state `s0` at the instant `t`: `ws` starts with the
/// world before the step, and evaluation number `i` took place at the state
/// and the instant that the scheme gives for it, turned `ws[i]` into
/// `ws[i + 1]` and resulted in `ds[i]`.
pub open spec fn traced<T: Stateful, F: Fn(World<T>, ScalarOf<T>) -> World<T>>(
    solver: Solver,
    physics: F,
    s0: Map<u64, T::State>,
    t: ScalarOf<T>,
    h: ScalarOf<T>,
    ws: Seq<World<T>>,
    ds: Seq<Map<u64, T::State>>,
) -> bool {
    &&& ds.len() == solver.stages()
    &&& ws.len() == ds.len() + 1
    &&& forall|i: int|
        0 <= i < ds.len() ==> evaluated(
            physics,
            ws[i],
            solver.probe(i, s0, ds, h),
            solver.probe_time(i, t, h),
            ws[i + 1],
            #[trigger] ds[i],
        )
}

/// Whether one step of `solver` of size `h`, from the state `s0` at the
/// instant `t`, can turn the world `before` into `after` and result in the
/// state `next`.
pub open spec fn stepped<T: Stateful, F: Fn(World<T>, ScalarOf<T>) -> World<T>>(
    solver: Solver,
    physics: F,
    before: World<T>,
    s0: Map<u64, T::State>,
    t: ScalarOf<T>,
    h: ScalarOf<T>,
    after: World<T>,
    next: Map<u64, T::State>,
) -> bool {
    exists|ws: Seq<World<T>>, ds: Seq<Map<u64, T::State>>| #[trigger]
        traced(solver, physics, s0, t, h, ws, ds) && ws[0] == before && ws.last() == after
            && solver.fits(s0, ds) && next == solver.combine(s0, ds, h)
}

/// The live state of a simulation that starts at time zero from what the
/// entities of `world` hold and report.
pub fn initialize_state<T: Stateful>(world: &World<T>) -> (r: PhysicsState<T>)
    ensures
        r.states@ == world.states(),
        r.dstates@ == world.derivatives(),
        r.time == ScalarOf::<T>::of(0),
{
    PhysicsState {
        states: collect_states(world),
        dstates: collect_state_derivatives(world),
        time: ScalarOf::<T>::from_u8(0),
    }
}

/// The derivatives at the snapshot `state` and the instant `t`: stages the
/// snapshot on the entities, runs the physics once, and gathers what the
/// entities then report.
///
/// Fails, before anything is staged or run, unless the snapshot holds a state
/// for every entity and for nothing else.
pub fn evaluate_state<T: Stateful, F: Fn(World<T>, ScalarOf<T>) -> World<T>>(
    world: &mut World<T>,
    physics: &F,
    state: &StateMap<T>,
    t: ScalarOf<T>,
) -> (r: Result<StateMap<T>, IntegratorError>)
    requires
        runs_anywhere(*physics),
    ensures
        r is Ok <==> state@.dom() == old(world).id_set(),
        r matches Ok(d) ==> evaluated(*physics, *old(world), state@, t, *final(world), d@),
        r matches Err(e) ==> final(world).ids() == old(world).ids() && final(world).bodies()
            == old(world).bodies() && e.blames(
            Operation::Evaluate,
            seq![old(world).states(), state@],
        ),
{
    match distribute_state(world, state) {
        Ok(()) => {
            let mut staged = World::new();
            std::mem::swap(world, &mut staged);
            *world = physics(staged, t);
            Ok(collect_state_derivatives(world))
        },
        Err(e) => Err(e),
    }
}

/// The derivatives at one evaluation point of a step from `state`: as
/// [`evaluate_state`] at `probe`, a collection over the entities of `state`.
fn evaluate_at<T: Stateful, F: Fn(World<T>, ScalarOf<T>) -> World<T>>(
    world: &mut World<T>,
    physics: &F,
    state: &StateMap<T>,
    probe: &StateMap<T>,
    t: ScalarOf<T>,
) -> (r: Result<StateMap<T>, IntegratorError>)
    requires
        runs_anywhere(*physics),
        probe@.dom() == state@.dom(),
    ensures
        r is Ok <==> state@.dom() == old(world).id_set(),
        r matches Ok(d) ==> evaluated(*physics, *old(world), probe@, t, *final(world), d@)
            && d@.dom() == final(world).id_set(),
        r is Ok && keeps_entities(*physics) ==> final(world).id_set() == state@.dom(),
        r matches Err(e) ==> mismatch_with(e, *final(world), state@) && e->operation
            == Operation::Evaluate && final(world).id_set() != state@.dom() && final(world).ids()
            == old(world).ids() && final(world).bodies() == old(world).bodies(),
{
    let ghost before = *world;
    match evaluate_state(world, physics, probe, t) {
        Ok(d) => Ok(d),
        Err(e) => {
            proof {
                lemma_blames_evaluate(e, before, probe@);
            }
            Err(e)
        },
    }
}

/// The probe `state + d * k` of a step from `state`, where `d` is what the
/// entities of `world` have reported.
fn probe_state<T: Stateful>(
    world: &World<T>,
    state: &StateMap<T>,
    d: &StateMap<T>,
    k: ScalarOf<T>,
) -> (r: Result<StateMap<T>, IntegratorError>)
    requires
        d@.dom() == world.id_set(),
    ensures
        r is Ok <==> state@.dom() == world.id_set(),
        r matches Ok(probe) ==> probe@ == advanced(state@, d@, k) && probe@.dom() == state@.dom(),
        r matches Err(e) ==> mismatch_with(e, *world, state@) && e->operation == Operation::Add,
{
    let r = state.advanced(d, k);
    proof {
        if let Err(e) = r {
            lemma_blames_add(e, *world, state@, seq![state@, d@]);
        }
    }
    r
}

/// One step of the Euler scheme from `state` at the instant `t`: one
/// evaluation, then `state + d1 * dt`.
///
/// Fails on a key mismatch: where `state` does not fit the entities of
/// `world`, before anything is run, or where the physics has changed which
/// entities there are.
pub fn euler<T: Stateful, F: Fn(World<T>, ScalarOf<T>) -> World<T>>(
    world: &mut World<T>,
    physics: &F,
    state: &StateMap<T>,
    t: ScalarOf<T>,
    dt: ScalarOf<T>,
) -> (r: Result<StateMap<T>, IntegratorError>)
    requires
        runs_anywhere(*physics),
    ensures
        r is Ok <==> final(world).id_set() == state@.dom(),
        keeps_entities(*physics) && state@.dom() == old(world).id_set() ==> r is Ok,
        r matches Ok(next) ==> stepped(
            Solver::Euler,
            *physics,
            *old(world),
            state@,
            t,
            dt,
            *final(world),
            next@,
        ),
        r matches Err(e) ==> mismatch_with(e, *final(world), state@) && (e->operation
            == Operation::Evaluate <==> state@.dom() != old(world).id_set()),
        state@.dom() != old(world).id_set() ==> final(world).ids() == old(world).ids()
            && final(world).bodies() == old(world).bodies(),
{
    let ghost w0 = *world;
    let d1 = evaluate_at(world, physics, state, state, t)?;
    let r = probe_state(world, state, &d1, dt);
    proof {
        if r is Ok {
            let ws = seq![w0, *world];
            let ds = seq![d1@];
            assert(traced(Solver::Euler, *physics, state@, t, dt, ws, ds));
        }
    }
    r
}

/// One step of Heun's scheme from `state` at the instant `t`: an evaluation
/// at `state`, one at `state + d1 * dt` and `t + dt`, then
/// `state + (d1 + d2) * (dt / 2)`.
///
/// Fails on a key mismatch: where `state` does not fit the entities of
/// `world`, before anything is run, or where the physics has changed which
/// entities there are.
pub fn heun<T: Stateful, F: Fn(World<T>, ScalarOf<T>) -> World<T>>(
    world: &mut World<T>,
    physics: &F,
    state: &StateMap<T>,
    t: ScalarOf<T>,
    dt: ScalarOf<T>,
) -> (r: Result<StateMap<T>, IntegratorError>)
    requires
        runs_anywhere(*physics),
    ensures
        r is Ok <==> final(world).id_set() == state@.dom(),
        keeps_entities(*physics) && state@.dom() == old(world).id_set() ==> r is Ok,
        r matches Ok(next) ==> stepped(
            Solver::Heun,
            *physics,
            *old(world),
            state@,
            t,
            dt,
            *final(world),
            next@,
        ),
        r matches Err(e) ==> mismatch_with(e, *final(world), state@) && (e->operation
            == Operation::Evaluate <==> state@.dom() != old(world).id_set()),
        state@.dom() != old(world).id_set() ==> final(world).ids() == old(world).ids()
            && final(world).bodies() == old(world).bodies(),
{
    let ghost w0 = *world;
    let d1 = evaluate_at(world, physics, state, state, t)?;
    let ghost w1 = *world;
    let probe = probe_state(world, state, &d1, dt)?;
    let d2 = evaluate_at(world, physics, state, &probe, t.plus(dt))?;
    let r = heun_update(state, &d1, &d2, dt);
    proof {
        match r {
            Ok(_) => {
                let ws = seq![w0, w1, *world];
                let ds = seq![d1@, d2@];
                assert(traced(Solver::Heun, *physics, state@, t, dt, ws, ds));
            },
            Err(e) => {
                lemma_blames_add(e, *world, state@, seq![state@, d1@, d2@]);
            },
        }
    }
    r
}

/// One step of the midpoint scheme from `state` at the instant `t`: an
/// evaluation at `state`, one at `state + d1 * (dt / 2)` and `t + dt / 2`,
/// then `state + d2 * dt`.
///
/// Fails on a key mismatch: where `state` does not fit the entities of
/// `world`, before anything is run, or where the physics has changed which
/// entities there are.
pub fn midpoint<T: Stateful, F: Fn(World<T>, ScalarOf<T>) -> World<T>>(
    world: &mut World<T>,
    physics: &F,
    state: &StateMap<T>,
    t: ScalarOf<T>,
    dt: ScalarOf<T>,
) -> (r: Result<StateMap<T>, IntegratorError>)
    requires
        runs_anywhere(*physics),
    ensures
        r is Ok <==> final(world).id_set() == state@.dom(),
        keeps_entities(*physics) && state@.dom() == old(world).id_set() ==> r is Ok,
        r matches Ok(next) ==> stepped(
            Solver::Midpoint,
            *physics,
            *old(world),
            state@,
            t,
            dt,
            *final(world),
            next@,
        ),
        r matches Err(e) ==> mismatch_with(e, *final(world), state@) && (e->operation
            == Operation::Evaluate <==> state@.dom() != old(world).id_set()),
        state@.dom() != old(world).id_set() ==> final(world).ids() == old(world).ids()
            && final(world).bodies() == old(world).bodies(),
{
    let half = dt.over(ScalarOf::<T>::from_u8(2));
    let ghost w0 = *world;
    let d1 = evaluate_at(world, physics, state, state, t)?;
    let ghost w1 = *world;
    let probe = probe_state(world, state, &d1, half)?;
    let d2 = evaluate_at(world, physics, state, &probe, t.plus(half))?;
    let r = probe_state(world, state, &d2, dt);
    proof {
        if r is Ok {
            let ws = seq![w0, w1, *world];
            let ds = seq![d1@, d2@];
            assert(traced(Solver::Midpoint, *physics, state@, t, dt, ws, ds));
        }
    }
    r
}

/// One step of the classical fourth-order scheme from `state` at the instant
/// `t`: evaluations at `state`, at `state + d1 * (dt / 2)` and
/// `state + d2 * (dt / 2)`, both at `t + dt / 2`, and at `state + d3 * dt`
/// and `t + dt`; then `state + (d1 + d2 * 2 + d3 * 2 + d4) * (dt / 6)`.
///
/// Fails on a key mismatch: where `state` does not fit the entities of
/// `world`, before anything is run, or where the physics has changed which
/// entities there are.
pub fn rk4<T: Stateful, F: Fn(World<T>, ScalarOf<T>) -> World<T>>(
    world: &mut World<T>,
    physics: &F,
    state: &StateMap<T>,
    t: ScalarOf<T>,
    dt: ScalarOf<T>,
) -> (r: Result<StateMap<T>, IntegratorError>)
    requires
        runs_anywhere(*physics),
    ensures
        r is Ok <==> final(world).id_set() == state@.dom(),
        keeps_entities(*physics) && state@.dom() == old(world).id_set() ==> r is Ok,
        r matches Ok(next) ==> stepped(
            Solver::RK4,
            *physics,
            *old(world),
            state@,
            t,
            dt,
            *final(world),
            next@,
        ),
        r matches Err(e) ==> mismatch_with(e, *final(world), state@) && (e->operation
            == Operation::Evaluate <==> state@.dom() != old(world).id_set()),
        state@.dom() != old(world).id_set() ==> final(world).ids() == old(world).ids()
            && final(world).bodies() == old(world).bodies(),
{
    let half = dt.over(ScalarOf::<T>::from_u8(2));
    let ghost w0 = *world;
    let d1 = evaluate_at(world, physics, state, state, t)?;
    let ghost w1 = *world;
    let probe = probe_state(world, state, &d1, half)?;
    let d2 = evaluate_at(world, physics, state, &probe, t.plus(half))?;
    let ghost w2 = *world;
    let probe = probe_state(world, state, &d2, half)?;
    let d3 = evaluate_at(world, physics, state, &probe, t.plus(half))?;
    let ghost w3 = *world;
    let probe = probe_state(world, state, &d3, dt)?;
    let d4 = evaluate_at(world, physics, state, &probe, t.plus(dt))?;
    let r = rk4_update(state, &d1, &d2, &d3, &d4, dt);
    proof {
        match r {
            Ok(_) => {
                let ws = seq![w0, w1, w2, w3, *world];
                let ds = seq![d1@, d2@, d3@, d4@];
                assert(ws[0] == w0 && ws[1] == w1 && ws[2] == w2 && ws[3] == w3 && ws[4]
                    == *world);
                assert(traced(Solver::RK4, *physics, state@, t, dt, ws, ds));
            },
            Err(e) => {
                lemma_blames_add(e, *world, state@, seq![state@, d1@, d2@, d3@, d4@]);
            },
        }
    }
    r
}

/// Advances the simulation by one step of size `time_step` with the scheme
/// `solver`: the state at the end of the step replaces the live state, the
/// entities of `world` show it, and the time moves on by `time_step`.
///
/// Fails on a key mismatch, and then leaves `physics_state` as it was: where
/// the live state does not fit the entities of `world`, before anything is
/// run, or where the physics has changed which entities there are.
pub fn integrator_schedule<T: Stateful, F: Fn(World<T>, ScalarOf<T>) -> World<T>>(
    world: &mut World<T>,
    physics: &F,
    physics_state: &mut PhysicsState<T>,
    solver: Solver,
    time_step: ScalarOf<T>,
) -> (r: Result<(), IntegratorError>)
    requires
        runs_anywhere(*physics),
    ensures
        r is Ok <==> final(world).id_set() == old(physics_state).states@.dom(),
        keeps_entities(*physics) && old(physics_state).states@.dom() == old(world).id_set()
            ==> r is Ok,
        r is Ok ==> exists|last: World<T>| #[trigger]
            stepped(
                solver,
                *physics,
                *old(world),
                old(physics_state).states@,
                old(physics_state).time,
                time_step,
                last,
                final(physics_state).states@,
            ) && final(physics_state).dstates@ == last.derivatives()
                && final(world).ids() == last.ids()
                && final(world).bodies() == last.published(final(physics_state).states@),
        r is Ok ==> final(world).states() == final(physics_state).states@,
        r is Ok ==> final(physics_state).time == old(physics_state).time.sum(time_step),
        r is Ok && time_step == ScalarOf::<T>::of(0)
            ==> final(physics_state).states@ == old(physics_state).states@,
        r is Ok && reports_zero(*physics)
            ==> final(physics_state).states@ == old(physics_state).states@,
        r matches Err(e) ==> *final(physics_state) == *old(physics_state)
            && mismatch_with(e, *final(world), old(physics_state).states@)
            && (e->operation == Operation::Evaluate
                <==> old(physics_state).states@.dom() != old(world).id_set()),
        old(physics_state).states@.dom() != old(world).id_set()
            ==> final(world).ids() == old(world).ids()
            && final(world).bodies() == old(world).bodies(),
{
    let ghost before = *world;
    let time = physics_state.time;
    let state = match solver {
        Solver::Euler => euler(world, physics, &physics_state.states, time, time_step),
        Solver::Heun => heun(world, physics, &physics_state.states, time, time_step),
        Solver::Midpoint => midpoint(world, physics, &physics_state.states, time, time_step),
        Solver::RK4 => rk4(world, physics, &physics_state.states, time, time_step),
    }?;
    let dstates = collect_state_derivatives(world);
    let ghost last = *world;
    proof {
        let s0 = physics_state.states@;
        lemma_step_keeps_keys(solver, *physics, before, s0, time, time_step, last, state@);
        if time_step == ScalarOf::<T>::of(0) {
            lemma_zero_step_identity_of_steps(solver, *physics, before, s0, time, last, state@);
        }
        if reports_zero(*physics) {
            lemma_zero_derivative_invariance_of_steps(
                solver,
                *physics,
                before,
                s0,
                time,
                time_step,
                last,
                state@,
            );
        }
    }
    match publish_state(world, &state) {
        Ok(()) => {
            physics_state.states = state;
            physics_state.dstates = dstates;
            physics_state.time = time.plus(time_step);
            assert(stepped(
                solver,
                *physics,
                before,
                old(physics_state).states@,
                time,
                time_step,
                last,
                physics_state.states@,
            ));
            Ok(())
        },
        Err(e) => {
            proof {
                lemma_blames_evaluate(e, last, state@);
            }
            Err(e)
        },
    }
}

/// An error that blames the staging of `states` on `world` is a key mismatch
/// between the two.
proof fn lemma_blames_evaluate<T: Stateful>(
    e: IntegratorError,
    world: World<T>,
    states: Map<u64, T::State>,
)
    requires
        e.blames(Operation::Evaluate, seq![world.states(), states]),
    ensures
        mismatch_with(e, world, states),
        world.id_set() != states.dom(),
{
    let ms = seq![world.states(), states];
    assert(ms[0] == world.states() && ms[1] == states);
    let entity = e->entity;
    assert(world.ids().contains(entity) != states.contains_key(entity));
    assert(world.id_set().contains(entity) != states.dom().contains(entity));
}

/// An error that blames a sum of collections, each of which has the keys of
/// `states` or names the entities of `world`, is a key mismatch between the
/// two.
proof fn lemma_blames_add<T: Stateful>(
    e: IntegratorError,
    world: World<T>,
    states: Map<u64, T::State>,
    ms: Seq<Map<u64, T::State>>,
)
    requires
        e.blames(Operation::Add, ms),
        forall|i: int|
            0 <= i < ms.len() ==> (#[trigger] ms[i]).dom() == states.dom() || ms[i].dom()
                == world.id_set(),
    ensures
        mismatch_with(e, world, states),
        world.id_set() != states.dom(),
{
    let entity = e->entity;
    let (i, j) = choose|i: int, j: int|
        0 <= i < ms.len() && 0 <= j < ms.len() && (#[trigger] ms[i]).contains_key(entity) && !(
        #[trigger] ms[j]).contains_key(entity);
    assert(ms[i].dom().contains(entity));
    assert(!ms[j].dom().contains(entity));
    assert(world.id_set().contains(entity) != states.dom().contains(entity));
}

} // verus!
