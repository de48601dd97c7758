//! The four explicit schemes: how each combines derivative evaluations into
//! the next state.

use vstd::prelude::*;
use vstd::string::StrSliceExecFns;
use crate::algebra::{Scalar, State};
use crate::error::{IntegratorError, Operation};
use crate::state_map::{map_scaled, map_sum, same_keys, StateMap};
use crate::stateful::Stateful;

verus! {

/// The scheme that advances the system by one step.
#[derive(Clone, Copy, Debug, PartialEq, Eq, Structural)]
pub enum Solver {
    /// The explicit Euler scheme: one evaluation, first order.
    Euler,
    /// Heun's scheme, the improved Euler scheme: two evaluations, second
    /// order.
    Heun,
    /// The explicit midpoint scheme: two evaluations, second order.
    Midpoint,
    /// The classical Runge-Kutta scheme: four evaluations, fourth order.
    RK4,
}

/// `s` moved along the slope `d` for a time `k`: `s + d * k`.
pub open spec fn advanced<S: State>(s: Map<u64, S>, d: Map<u64, S>, k: S::Scalar) -> Map<u64, S> {
    map_sum(s, map_scaled(d, k))
}

/// The `n`-th part of `h`.
pub open spec fn part<F: Scalar>(h: F, n: u8) -> F {
    h.quotient(F::of(n))
}

/// The weighted slope of the classical fourth-order scheme:
/// `d1 + d2 * 2 + d3 * 2 + d4`.
pub open spec fn rk4_slope<S: State>(
    d1: Map<u64, S>,
    d2: Map<u64, S>,
    d3: Map<u64, S>,
    d4: Map<u64, S>,
) -> Map<u64, S> {
    map_sum(
        map_sum(map_sum(d1, map_scaled(d2, S::Scalar::of(2))), map_scaled(d3, S::Scalar::of(2))),
        d4,
    )
}

/// Whether two texts are the same.
fn same_text(a: &str, b: &str) -> (r: bool)
    ensures
        r == (a@ == b@),
{
    let n = a.unicode_len();
    if n != b.unicode_len() {
        return false;
    }
    let mut i: usize = 0;
    while i < n
        invariant
            i <= n,
            n == a@.len(),
            n == b@.len(),
            forall|j: int| 0 <= j < i ==> a@[j] == b@[j],
        decreases n - i,
    {
        if a.get_char(i) != b.get_char(i) {
            return false;
        }
        i += 1;
    }
    assert(a@ =~= b@);
    true
}

impl Solver {
    /// The name by which the scheme is selected.
    pub open spec fn name(self) -> Seq<char> {
        match self {
            Solver::Euler => "Euler"@,
            Solver::Heun => "Heun"@,
            Solver::Midpoint => "Midpoint"@,
            Solver::RK4 => "RK4"@,
        }
    }

    /// No two schemes have the same name.
    pub proof fn lemma_name_identifies(a: Solver, b: Solver)
        requires
            a.name() == b.name(),
        ensures
            a == b,
    {
        reveal_strlit("Euler");
        reveal_strlit("Heun");
        reveal_strlit("Midpoint");
        reveal_strlit("RK4");
        assert("Euler"@.len() == 5 && "Heun"@.len() == 4 && "Midpoint"@.len() == 8 && "RK4"@.len()
            == 3);
    }

    /// The scheme of the given name.
    ///
    /// Fails when `name` is not the name of a scheme.
    pub fn from_name(name: &str) -> (r: Result<Solver, IntegratorError>)
        ensures
            match r {
                Ok(solver) => name@ == solver.name(),
                Err(e) => e == IntegratorError::UnrecognizedSolver && forall|solver: Solver|
                    name@ != #[trigger] solver.name(),
            },
    {
        if same_text(name, "Euler") {
            Ok(Solver::Euler)
        } else if same_text(name, "Heun") {
            Ok(Solver::Heun)
        } else if same_text(name, "Midpoint") {
            Ok(Solver::Midpoint)
        } else if same_text(name, "RK4") {
            Ok(Solver::RK4)
        } else {
            Err(IntegratorError::UnrecognizedSolver)
        }
    }

    /// How many derivative evaluations one step takes.
    pub open spec fn stages(self) -> nat {
        match self {
            Solver::Euler => 1,
            Solver::Heun => 2,
            Solver::Midpoint => 2,
            Solver::RK4 => 4,
        }
    }

    /// The state at which evaluation number `stage` takes place, given the
    /// state `s0` at the start of the step and the derivatives `ds` of the
    /// evaluations before it.
    pub open spec fn probe<S: State>(
        self,
        stage: int,
        s0: Map<u64, S>,
        ds: Seq<Map<u64, S>>,
        h: S::Scalar,
    ) -> Map<u64, S> {
        if stage <= 0 {
            s0
        } else {
            match self {
                Solver::Euler => s0,
                Solver::Heun => advanced(s0, ds[0], h),
                Solver::Midpoint => advanced(s0, ds[0], part(h, 2)),
                Solver::RK4 => if stage == 1 {
                    advanced(s0, ds[0], part(h, 2))
                } else if stage == 2 {
                    advanced(s0, ds[1], part(h, 2))
                } else {
                    advanced(s0, ds[2], h)
                },
            }
        }
    }

    /// The instant of evaluation number `stage` in a step that starts at `t`.
    pub open spec fn probe_time<F: Scalar>(self, stage: int, t: F, h: F) -> F {
        if stage <= 0 {
            t
        } else {
            match self {
                Solver::Euler => t,
                Solver::Heun => t.sum(h),
                Solver::Midpoint => t.sum(part(h, 2)),
                Solver::RK4 => if stage == 1 || stage == 2 {
                    t.sum(part(h, 2))
                } else {
                    t.sum(h)
                },
            }
        }
    }

    /// The state at the end of the step, given the state `s0` at its start
    /// and the derivatives `ds` of its evaluations, in order.
    pub open spec fn combine<S: State>(
        self,
        s0: Map<u64, S>,
        ds: Seq<Map<u64, S>>,
        h: S::Scalar,
    ) -> Map<u64, S> {
        match self {
            Solver::Euler => advanced(s0, ds[0], h),
            Solver::Heun => advanced(s0, map_sum(ds[0], ds[1]), part(h, 2)),
            Solver::Midpoint => advanced(s0, ds[1], h),
            Solver::RK4 => advanced(s0, rk4_slope(ds[0], ds[1], ds[2], ds[3]), part(h, 6)),
        }
    }

    /// Whether `ds` has the shape of the derivatives of one step from `s0`:
    /// one collection for each evaluation, each over the entities of `s0`.
    pub open spec fn fits<S: State>(self, s0: Map<u64, S>, ds: Seq<Map<u64, S>>) -> bool {
        &&& ds.len() == self.stages()
        &&& forall|i: int| 0 <= i < ds.len() ==> (#[trigger] ds[i]).dom() == s0.dom()
    }

    /// How many derivative evaluations one step takes.
    pub fn evaluations(&self) -> (n: usize)
        ensures
            n == self.stages(),
    {
        match self {
            Solver::Euler => 1,
            Solver::Heun => 2,
            Solver::Midpoint => 2,
            Solver::RK4 => 4,
        }
    }
}

impl<T: Stateful> StateMap<T> {
    /// This collection moved along the slope `d` for a time `k`:
    /// `self + d * k`.
    ///
    /// Fails when the two collections do not hold the same entities.
    pub fn advanced(&self, d: &Self, k: <T::State as State>::Scalar) -> (r: Result<
        Self,
        IntegratorError,
    >)
        ensures
            r is Ok <==> self@.dom() == d@.dom(),
            r matches Ok(next) ==> next@ == advanced(self@, d@, k),
            r matches Err(e) ==> e.blames(Operation::Add, seq![self@, d@]),
    {
        let change = d.mul(k);
        assert(change@.dom() =~= d@.dom());
        self.add(&change)
    }
}

/// The state after one step of Heun's scheme:
/// `s0 + (d1 + d2) * (h / 2)`.
///
/// Fails when the three collections do not hold the same entities.
pub fn heun_update<T: Stateful>(
    s0: &StateMap<T>,
    d1: &StateMap<T>,
    d2: &StateMap<T>,
    h: <T::State as State>::Scalar,
) -> (r: Result<StateMap<T>, IntegratorError>)
    ensures
        r is Ok <==> same_keys(seq![s0@, d1@, d2@]),
        r matches Ok(next) ==> next@ == Solver::Heun.combine(s0@, seq![d1@, d2@], h),
        r matches Err(e) ==> e.blames(Operation::Add, seq![s0@, d1@, d2@]),
{
    let two = <T::State as State>::Scalar::from_u8(2);
    match d1.add(d2) {
        Ok(slope) => {
            assert(slope@.dom() =~= d1@.dom());
            s0.advanced(&slope, h.over(two))
        },
        Err(e) => Err(e),
    }
}

/// The state after one step of the classical fourth-order scheme:
/// `s0 + (d1 + d2 * 2 + d3 * 2 + d4) * (h / 6)`.
///
/// Fails when the five collections do not hold the same entities.
pub fn rk4_update<T: Stateful>(
    s0: &StateMap<T>,
    d1: &StateMap<T>,
    d2: &StateMap<T>,
    d3: &StateMap<T>,
    d4: &StateMap<T>,
    h: <T::State as State>::Scalar,
) -> (r: Result<StateMap<T>, IntegratorError>)
    ensures
        r is Ok <==> same_keys(seq![s0@, d1@, d2@, d3@, d4@]),
        r matches Ok(next) ==> next@ == Solver::RK4.combine(s0@, seq![d1@, d2@, d3@, d4@], h),
        r matches Err(e) ==> e.blames(Operation::Add, seq![s0@, d1@, d2@, d3@, d4@]),
{
    let two = <T::State as State>::Scalar::from_u8(2);
    let six = <T::State as State>::Scalar::from_u8(6);
    let first = d1.advanced(d2, two)?;
    assert(first@.dom() =~= d1@.dom());
    let second = first.advanced(d3, two)?;
    assert(second@.dom() =~= d1@.dom());
    let slope = second.add(d4)?;
    assert(slope@.dom() =~= d1@.dom());
    s0.advanced(&slope, h.over(six))
}

} // verus!
