//! What holds of the collection arithmetic and of every scheme.

use vstd::prelude::*;
use crate::algebra::{lemma_sum_with_zero, lemma_zero_scaled, Scalar, State};
use crate::integrator::{reports_constant, reports_zero, stepped, traced, ScalarOf};
use crate::stateful::Stateful;
use crate::world::World;
use crate::solver::{advanced, part, rk4_slope, Solver};
use crate::state_map::{all_zero, map_scaled, map_sum};

verus! {

/// Addition of collections is associative: `(a + b) + c == a + (b + c)`.
pub proof fn lemma_sum_associative<S: State>(a: Map<u64, S>, b: Map<u64, S>, c: Map<u64, S>)
    requires
        a.dom() == b.dom(),
        b.dom() == c.dom(),
    ensures
        map_sum(map_sum(a, b), c) == map_sum(a, map_sum(b, c)),
{
    assert forall|e: u64| a.contains_key(e) implies #[trigger] map_sum(map_sum(a, b), c)[e]
        == map_sum(a, map_sum(b, c))[e] by {
        assert(b.dom().contains(e));
        S::sum_associative(a[e], b[e], c[e]);
    }
    assert(map_sum(map_sum(a, b), c) =~= map_sum(a, map_sum(b, c)));
}

/// Addition of collections is commutative: `a + b == b + a`.
pub proof fn lemma_sum_commutative<S: State>(a: Map<u64, S>, b: Map<u64, S>)
    requires
        a.dom() == b.dom(),
    ensures
        map_sum(a, b) == map_sum(b, a),
{
    assert forall|e: u64| a.contains_key(e) implies #[trigger] map_sum(a, b)[e] == map_sum(
        b,
        a,
    )[e] by {
        assert(b.dom().contains(e));
        S::sum_commutative(a[e], b[e]);
    }
    assert(map_sum(a, b) =~= map_sum(b, a));
}

/// Scaling distributes over addition: `(a + b) * p == a * p + b * p`.
pub proof fn lemma_scaled_distributes<S: State>(a: Map<u64, S>, b: Map<u64, S>, p: S::Scalar)
    requires
        a.dom() == b.dom(),
    ensures
        map_scaled(map_sum(a, b), p) == map_sum(map_scaled(a, p), map_scaled(b, p)),
{
    assert forall|e: u64| a.contains_key(e) implies #[trigger] map_scaled(map_sum(a, b), p)[e]
        == map_sum(map_scaled(a, p), map_scaled(b, p))[e] by {
        assert(b.dom().contains(e));
        S::scaled_distributes(a[e], b[e], p);
    }
    assert(map_scaled(map_sum(a, b), p) =~= map_sum(map_scaled(a, p), map_scaled(b, p)));
}

/// Scaling by a product is scaling twice: `a * (p * q) == (a * p) * q`.
pub proof fn lemma_scaled_associative<S: State>(a: Map<u64, S>, p: S::Scalar, q: S::Scalar)
    ensures
        map_scaled(a, p.product(q)) == map_scaled(map_scaled(a, p), q),
{
    assert forall|e: u64| a.contains_key(e) implies #[trigger] map_scaled(a, p.product(q))[e]
        == map_scaled(map_scaled(a, p), q)[e] by {
        S::scaled_associative(a[e], p, q);
    }
    assert(map_scaled(a, p.product(q)) =~= map_scaled(map_scaled(a, p), q));
}

/// A collection of zero states stays as it is under scaling.
pub proof fn lemma_zero_map_scaled<S: State>(z: Map<u64, S>, k: S::Scalar)
    requires
        all_zero(z),
    ensures
        map_scaled(z, k) == z,
{
    assert forall|e: u64| z.contains_key(e) implies #[trigger] map_scaled(z, k)[e] == z[e] by {
        lemma_zero_scaled(z[e], k);
    }
    assert(map_scaled(z, k) =~= z);
}

/// Adding a collection of zero states changes nothing.
pub proof fn lemma_sum_with_zero_map<S: State>(a: Map<u64, S>, z: Map<u64, S>)
    requires
        a.dom() == z.dom(),
        all_zero(z),
    ensures
        map_sum(a, z) == a,
{
    assert forall|e: u64| a.contains_key(e) implies #[trigger] map_sum(a, z)[e] == a[e] by {
        assert(z.dom().contains(e));
        lemma_sum_with_zero(a[e], z[e]);
    }
    assert(map_sum(a, z) =~= a);
}

/// Moving along any slope for no time at all changes nothing.
pub proof fn lemma_advanced_by_zero<S: State>(s: Map<u64, S>, d: Map<u64, S>)
    requires
        s.dom() == d.dom(),
    ensures
        advanced(s, d, S::Scalar::of(0)) == s,
{
    assert forall|e: u64| s.contains_key(e) implies #[trigger] advanced(s, d, S::Scalar::of(0))[e]
        == s[e] by {
        assert(d.dom().contains(e));
        S::sum_zero(s[e], d[e]);
    }
    assert(advanced(s, d, S::Scalar::of(0)) =~= s);
}

/// Where every evaluation of a step reports a zero derivative for every
/// entity, the step leaves the state as it was, whatever the scheme and the
/// step size.
pub proof fn lemma_zero_derivative_invariance<S: State>(
    solver: Solver,
    s0: Map<u64, S>,
    ds: Seq<Map<u64, S>>,
    h: S::Scalar,
)
    requires
        solver.fits(s0, ds),
        forall|i: int| 0 <= i < ds.len() ==> all_zero(#[trigger] ds[i]),
    ensures
        solver.combine(s0, ds, h) == s0,
{
    match solver {
        Solver::Euler => {
            lemma_zero_map_scaled(ds[0], h);
            lemma_sum_with_zero_map(s0, ds[0]);
        },
        Solver::Heun => {
            lemma_sum_with_zero_map(ds[0], ds[1]);
            lemma_zero_map_scaled(ds[0], part(h, 2));
            lemma_sum_with_zero_map(s0, ds[0]);
        },
        Solver::Midpoint => {
            lemma_zero_map_scaled(ds[1], h);
            lemma_sum_with_zero_map(s0, ds[1]);
        },
        Solver::RK4 => {
            let two = S::Scalar::of(2);
            lemma_zero_map_scaled(ds[1], two);
            lemma_sum_with_zero_map(ds[0], ds[1]);
            lemma_zero_map_scaled(ds[2], two);
            lemma_sum_with_zero_map(ds[0], ds[2]);
            lemma_sum_with_zero_map(ds[0], ds[3]);
            assert(rk4_slope(ds[0], ds[1], ds[2], ds[3]) == ds[0]);
            lemma_zero_map_scaled(ds[0], part(h, 6));
            lemma_sum_with_zero_map(s0, ds[0]);
        },
    }
}

/// A step of size zero leaves the state as it was, whatever the scheme and
/// whatever derivatives its evaluations report.
pub proof fn lemma_zero_step_identity<S: State>(
    solver: Solver,
    s0: Map<u64, S>,
    ds: Seq<Map<u64, S>>,
)
    requires
        solver.fits(s0, ds),
    ensures
        solver.combine(s0, ds, S::Scalar::of(0)) == s0,
{
    let zero = S::Scalar::of(0);
    S::Scalar::quotient_zero(2);
    S::Scalar::quotient_zero(6);
    match solver {
        Solver::Euler => {
            lemma_advanced_by_zero(s0, ds[0]);
        },
        Solver::Heun => {
            assert(map_sum(ds[0], ds[1]).dom() =~= ds[0].dom());
            lemma_advanced_by_zero(s0, map_sum(ds[0], ds[1]));
        },
        Solver::Midpoint => {
            lemma_advanced_by_zero(s0, ds[1]);
        },
        Solver::RK4 => {
            let slope = rk4_slope(ds[0], ds[1], ds[2], ds[3]);
            assert(slope.dom() =~= ds[0].dom());
            lemma_advanced_by_zero(s0, slope);
        },
    }
}

/// Where the one evaluation of an Euler step reports the same derivative `d`
/// for every entity, the step moves every entity's state `s` to `s + d * h`.
pub proof fn lemma_euler_step_exact<S: State>(
    s0: Map<u64, S>,
    d1: Map<u64, S>,
    d: S,
    h: S::Scalar,
)
    requires
        d1.dom() == s0.dom(),
        forall|e: u64| d1.contains_key(e) ==> #[trigger] d1[e] == d,
    ensures
        Solver::Euler.combine(s0, seq![d1], h).dom() == s0.dom(),
        forall|e: u64|
            s0.contains_key(e) ==> #[trigger] Solver::Euler.combine(s0, seq![d1], h)[e] == s0[e].sum(
                d.scaled(h),
            ),
{
    let next = Solver::Euler.combine(s0, seq![d1], h);
    assert(seq![d1][0] == d1);
    assert(next.dom() =~= s0.dom());
    assert forall|e: u64| s0.contains_key(e) implies #[trigger] next[e] == s0[e].sum(
        d.scaled(h),
    ) by {
        assert(d1.dom().contains(e));
    }
}

/// Whether `d` is what the entities of some world reported after a run of
/// `physics`.
pub open spec fn reported_by<T: Stateful, F: Fn(World<T>, ScalarOf<T>) -> World<T>>(
    physics: F,
    d: Map<u64, T::State>,
) -> bool {
    exists|w: World<T>, k: ScalarOf<T>, a: World<T>| #[trigger]
        call_ensures(physics, (w, k), a) && a.derivatives() == d
}

/// The derivatives behind a step: collections that fit the scheme, each of
/// them what the entities reported after a run of the physics, and that the
/// scheme combines into `next`.
proof fn lemma_step_derivatives<T: Stateful, F: Fn(World<T>, ScalarOf<T>) -> World<T>>(
    solver: Solver,
    physics: F,
    before: World<T>,
    s0: Map<u64, T::State>,
    t: ScalarOf<T>,
    h: ScalarOf<T>,
    after: World<T>,
    next: Map<u64, T::State>,
) -> (ds: Seq<Map<u64, T::State>>)
    requires
        stepped(solver, physics, before, s0, t, h, after, next),
    ensures
        solver.fits(s0, ds),
        next == solver.combine(s0, ds, h),
        forall|i: int| 0 <= i < ds.len() ==> reported_by(physics, #[trigger] ds[i]),
{
    let (ws, ds) = choose|ws: Seq<World<T>>, ds: Seq<Map<u64, T::State>>| #[trigger]
        traced(solver, physics, s0, t, h, ws, ds) && ws[0] == before && ws.last() == after
            && solver.fits(s0, ds) && next == solver.combine(s0, ds, h);
    assert forall|i: int| 0 <= i < ds.len() implies reported_by(physics, #[trigger] ds[i]) by {
        let staged = choose|staged: World<T>| #[trigger]
            call_ensures(physics, (staged, solver.probe_time(i, t, h)), ws[i + 1])
                && staged.ids() == ws[i].ids() && staged.bodies() == ws[i].staged(
                solver.probe(i, s0, ds, h),
            );
    }
    ds
}

/// A step results in a state for every entity of the state it started from,
/// and for nothing else.
pub proof fn lemma_step_keeps_keys<T: Stateful, F: Fn(World<T>, ScalarOf<T>) -> World<T>>(
    solver: Solver,
    physics: F,
    before: World<T>,
    s0: Map<u64, T::State>,
    t: ScalarOf<T>,
    h: ScalarOf<T>,
    after: World<T>,
    next: Map<u64, T::State>,
)
    requires
        stepped(solver, physics, before, s0, t, h, after, next),
    ensures
        next.dom() == s0.dom(),
{
    let ds = lemma_step_derivatives(solver, physics, before, s0, t, h, after, next);
    assert(next.dom() =~= s0.dom());
}

/// Where the physics reports a zero derivative for every entity at every
/// evaluation, a step leaves the state as it was, whatever the scheme and
/// the step size.
pub proof fn lemma_zero_derivative_invariance_of_steps<
    T: Stateful,
    F: Fn(World<T>, ScalarOf<T>) -> World<T>,
>(
    solver: Solver,
    physics: F,
    before: World<T>,
    s0: Map<u64, T::State>,
    t: ScalarOf<T>,
    h: ScalarOf<T>,
    after: World<T>,
    next: Map<u64, T::State>,
)
    requires
        stepped(solver, physics, before, s0, t, h, after, next),
        reports_zero(physics),
    ensures
        next == s0,
{
    let ds = lemma_step_derivatives(solver, physics, before, s0, t, h, after, next);
    lemma_zero_derivative_invariance(solver, s0, ds, h);
}

/// A step of size zero leaves the state as it was, whatever the scheme and
/// the physics.
pub proof fn lemma_zero_step_identity_of_steps<
    T: Stateful,
    F: Fn(World<T>, ScalarOf<T>) -> World<T>,
>(
    solver: Solver,
    physics: F,
    before: World<T>,
    s0: Map<u64, T::State>,
    t: ScalarOf<T>,
    after: World<T>,
    next: Map<u64, T::State>,
)
    requires
        stepped(solver, physics, before, s0, t, ScalarOf::<T>::of(0), after, next),
    ensures
        next == s0,
{
    let ds = lemma_step_derivatives(
        solver,
        physics,
        before,
        s0,
        t,
        ScalarOf::<T>::of(0),
        after,
        next,
    );
    lemma_zero_step_identity(solver, s0, ds);
}

/// Where the physics reports the same derivative `d` for every entity at
/// every evaluation, an Euler step of size `h` moves every entity's state
/// `s` to `s + d * h`.
pub proof fn lemma_euler_step_exact_of_steps<T: Stateful, F: Fn(World<T>, ScalarOf<T>) -> World<T>>(
    physics: F,
    before: World<T>,
    s0: Map<u64, T::State>,
    t: ScalarOf<T>,
    h: ScalarOf<T>,
    after: World<T>,
    next: Map<u64, T::State>,
    d: T::State,
)
    requires
        stepped(Solver::Euler, physics, before, s0, t, h, after, next),
        reports_constant(physics, d),
    ensures
        next.dom() == s0.dom(),
        forall|e: u64| s0.contains_key(e) ==> #[trigger] next[e] == s0[e].sum(d.scaled(h)),
{
    let ds = lemma_step_derivatives(Solver::Euler, physics, before, s0, t, h, after, next);
    assert(ds =~= seq![ds[0]]);
    lemma_euler_step_exact(s0, ds[0], d, h);
}

} // verus!
