//! Escape time: how many steps an orbit takes before it leaves the region
//! that the escape test marks, counted up to a cap.
//!
//! The map and the escape test are the caller's: the count is stated over
//! what they return, whatever arithmetic stands behind them.

use vstd::prelude::*;

verus! {

/// Whether `orbit` runs from `seed` under `step`: it starts at the seed, and
/// each later point is what `step` returned for the point before it.
pub open spec fn is_orbit<Z, S: Fn(Z) -> Z>(step: S, seed: Z, orbit: Seq<Z>) -> bool {
    &&& orbit.len() >= 1
    &&& orbit[0] == seed
    &&& forall|i: int| 1 <= i < orbit.len() ==> call_ensures(step, (orbit[i - 1],), #[trigger] orbit[i])
}

/// Whether the escape test said no to each of the first `n` points of
/// `orbit`.
pub open spec fn stays_inside<Z, E: Fn(&Z) -> bool>(escaped: E, orbit: Seq<Z>, n: int) -> bool {
    forall|i: int| 0 <= i < n ==> call_ensures(escaped, (&#[trigger] orbit[i],), false)
}

/// Whether `orbit` is a run that the count follows: it runs from `seed` for
/// at most `cap` steps, none of its points but the last has escaped, and the
/// last has escaped unless the cap is reached.
pub open spec fn is_escape_run<Z, S: Fn(Z) -> Z, E: Fn(&Z) -> bool>(
    step: S,
    escaped: E,
    seed: Z,
    cap: nat,
    orbit: Seq<Z>,
) -> bool {
    &&& is_orbit(step, seed, orbit)
    &&& orbit.len() <= cap + 1
    &&& stays_inside(escaped, orbit, orbit.len() - 1)
    &&& (orbit.len() == cap + 1 || call_ensures(escaped, (&orbit.last(),), true))
}

/// Whether `n` is an escape time of `seed` under the cap: the number of steps
/// of some run that the count follows.
pub open spec fn escapes_at<Z, S: Fn(Z) -> Z, E: Fn(&Z) -> bool>(
    step: S,
    escaped: E,
    seed: Z,
    cap: nat,
    n: nat,
) -> bool {
    exists|orbit: Seq<Z>| #[trigger] is_escape_run(step, escaped, seed, cap, orbit) && orbit.len() == n + 1
}

/// Counts the steps of the orbit `z, step(z), step(step(z)), ..` from `seed`
/// up to the first point that has escaped, and stops at `max_iterations`. The
/// seed is tested before the first step, so a seed that has escaped counts 0.
///
/// `escaped` must accept the seed and whatever `step` returns, and `step`
/// whatever has not escaped.
pub fn escape_time<Z, S: Fn(Z) -> Z, E: Fn(&Z) -> bool>(
    seed: Z,
    step: S,
    escaped: E,
    max_iterations: usize,
) -> (iterations: usize)
    requires
        call_requires(escaped, (&seed,)),
        forall|z: Z, next: Z| call_ensures(step, (z,), next) ==> call_requires(escaped, (&next,)),
        forall|z: Z| call_ensures(escaped, (&z,), false) ==> call_requires(step, (z,)),
    ensures
        iterations <= max_iterations,
        escapes_at(step, escaped, seed, max_iterations as nat, iterations as nat),
{
    let mut z: Z = seed;
    let mut iterations: usize = 0;
    let ghost mut orbit: Seq<Z> = seq![seed];
    loop
        invariant
            iterations <= max_iterations,
            orbit.len() == iterations + 1,
            is_orbit(step, seed, orbit),
            orbit[iterations as int] == z,
            stays_inside(escaped, orbit, iterations as int),
            call_requires(escaped, (&z,)),
            forall|z: Z, next: Z| call_ensures(step, (z,), next) ==> call_requires(escaped, (&next,)),
            forall|z: Z| call_ensures(escaped, (&z,), false) ==> call_requires(step, (z,)),
        ensures
            iterations <= max_iterations,
            orbit.len() == iterations + 1,
            is_orbit(step, seed, orbit),
            stays_inside(escaped, orbit, iterations as int),
            iterations == max_iterations || call_ensures(escaped, (&orbit[iterations as int],), true),
        decreases max_iterations - iterations,
    {
        let out: bool = escaped(&z);
        if out || iterations >= max_iterations {
            break;
        }
        z = step(z);
        iterations = iterations + 1;
        proof {
            orbit = orbit.push(z);
        }
    }
    assert(is_escape_run(step, escaped, seed, max_iterations as nat, orbit));
    iterations
}

/// An orbit from a fixed point of the map never leaves it.
proof fn lemma_orbit_rests<Z, S: Fn(Z) -> Z>(step: S, seed: Z, orbit: Seq<Z>, i: int)
    requires
        forall|next: Z| call_ensures(step, (seed,), next) ==> next == seed,
        is_orbit(step, seed, orbit),
        0 <= i < orbit.len(),
    ensures
        orbit[i] == seed,
    decreases i,
{
    if i > 0 {
        lemma_orbit_rests(step, seed, orbit, i - 1);
    }
}

/// A seed that the map leaves where it is, and that has not escaped, never
/// escapes: its escape time is the cap, whatever the cap.
pub proof fn lemma_fixed_point_reaches_cap<Z, S: Fn(Z) -> Z, E: Fn(&Z) -> bool>(
    step: S,
    escaped: E,
    seed: Z,
    cap: nat,
    n: nat,
)
    requires
        forall|next: Z| call_ensures(step, (seed,), next) ==> next == seed,
        !call_ensures(escaped, (&seed,), true),
        escapes_at(step, escaped, seed, cap, n),
    ensures
        n == cap,
{
    let orbit = choose|orbit: Seq<Z>|
        #[trigger] is_escape_run(step, escaped, seed, cap, orbit) && orbit.len() == n + 1;
    lemma_orbit_rests(step, seed, orbit, n as int);
}

/// The seed is tested before the first step: a seed that has escaped has
/// escape time 0.
pub proof fn lemma_escaped_seed_counts_zero<Z, S: Fn(Z) -> Z, E: Fn(&Z) -> bool>(
    step: S,
    escaped: E,
    seed: Z,
    cap: nat,
    n: nat,
)
    requires
        !call_ensures(escaped, (&seed,), false),
        escapes_at(step, escaped, seed, cap, n),
    ensures
        n == 0,
{
    let orbit = choose|orbit: Seq<Z>|
        #[trigger] is_escape_run(step, escaped, seed, cap, orbit) && orbit.len() == n + 1;
    if n > 0 {
        assert(call_ensures(escaped, (&orbit[0],), false));
    }
}

/// A seed that has not escaped, and whose first step has, has escape time 1
/// under any cap of at least 1: point `n` is tested after `n` steps.
pub proof fn lemma_escape_on_first_step<Z, S: Fn(Z) -> Z, E: Fn(&Z) -> bool>(
    step: S,
    escaped: E,
    seed: Z,
    cap: nat,
    n: nat,
)
    requires
        cap >= 1,
        !call_ensures(escaped, (&seed,), true),
        forall|next: Z| call_ensures(step, (seed,), next) ==> !call_ensures(escaped, (&next,), false),
        escapes_at(step, escaped, seed, cap, n),
    ensures
        n == 1,
{
    let orbit = choose|orbit: Seq<Z>|
        #[trigger] is_escape_run(step, escaped, seed, cap, orbit) && orbit.len() == n + 1;
    if n >= 2 {
        assert(call_ensures(step, (orbit[0],), orbit[1]));
        assert(call_ensures(escaped, (&orbit[1],), false));
    }
}

/// Whether `step` computes `f`: whatever it returns for a point is `f` of
/// that point.
pub open spec fn computes<Z, S: Fn(Z) -> Z>(step: S, f: spec_fn(Z) -> Z) -> bool {
    forall|z: Z, next: Z| call_ensures(step, (z,), next) ==> next == f(z)
}

/// Whether `escaped` decides `g`: whatever it answers for a point is `g` of
/// that point.
pub open spec fn decides<Z, E: Fn(&Z) -> bool>(escaped: E, g: spec_fn(Z) -> bool) -> bool {
    forall|z: Z, out: bool| call_ensures(escaped, (&z,), out) ==> out == g(z)
}

/// Point `n` of the orbit of `seed` under `f`: `f` applied `n` times.
pub open spec fn orbit_point<Z>(f: spec_fn(Z) -> Z, seed: Z, n: nat) -> Z
    decreases n,
{
    if n == 0 {
        seed
    } else {
        f(orbit_point(f, seed, (n - 1) as nat))
    }
}

/// Whether `n` is the first escape of `seed` under the cap: the smallest `n`
/// for which point `n` of the orbit satisfies `g`, or the cap where no point
/// before the cap does.
pub open spec fn is_first_escape<Z>(
    f: spec_fn(Z) -> Z,
    g: spec_fn(Z) -> bool,
    seed: Z,
    cap: nat,
    n: nat,
) -> bool {
    &&& n <= cap
    &&& forall|i: nat| i < n ==> !g(#[trigger] orbit_point(f, seed, i))
    &&& (n == cap || g(orbit_point(f, seed, n)))
}

/// A run under a step that computes `f` holds the points of the orbit under
/// `f`.
proof fn lemma_run_follows_orbit<Z, S: Fn(Z) -> Z>(
    step: S,
    f: spec_fn(Z) -> Z,
    seed: Z,
    orbit: Seq<Z>,
    i: nat,
)
    requires
        computes(step, f),
        is_orbit(step, seed, orbit),
        i < orbit.len(),
    ensures
        orbit[i as int] == orbit_point(f, seed, i),
    decreases i,
{
    if i > 0 {
        lemma_run_follows_orbit(step, f, seed, orbit, (i - 1) as nat);
    }
}

/// What `escape_time` counts, where the step computes `f` and the test decides
/// `g`: the smallest `n` such that point `n` of the orbit under `f` satisfies
/// `g`, or the cap.
pub proof fn lemma_escape_time_is_first_escape<Z, S: Fn(Z) -> Z, E: Fn(&Z) -> bool>(
    step: S,
    escaped: E,
    f: spec_fn(Z) -> Z,
    g: spec_fn(Z) -> bool,
    seed: Z,
    cap: nat,
    n: nat,
)
    requires
        computes(step, f),
        decides(escaped, g),
        escapes_at(step, escaped, seed, cap, n),
    ensures
        is_first_escape(f, g, seed, cap, n),
{
    let orbit = choose|orbit: Seq<Z>|
        #[trigger] is_escape_run(step, escaped, seed, cap, orbit) && orbit.len() == n + 1;
    assert forall|i: nat| i < n implies !g(#[trigger] orbit_point(f, seed, i)) by {
        lemma_run_follows_orbit(step, f, seed, orbit, i);
        assert(call_ensures(escaped, (&orbit[i as int],), false));
    }
    if n != cap {
        lemma_run_follows_orbit(step, f, seed, orbit, n);
        assert(orbit.last() == orbit[n as int]);
    }
}

/// A seed has one first escape under a cap.
pub proof fn lemma_first_escape_unique<Z>(
    f: spec_fn(Z) -> Z,
    g: spec_fn(Z) -> bool,
    seed: Z,
    cap: nat,
    a: nat,
    b: nat,
)
    requires
        is_first_escape(f, g, seed, cap, a),
        is_first_escape(f, g, seed, cap, b),
    ensures
        a == b,
{
    if a < b {
        assert(!g(orbit_point(f, seed, a)));
    } else if b < a {
        assert(!g(orbit_point(f, seed, b)));
    }
}

/// Two formulations of one map give one escape time: where both steps compute
/// `f` and both tests decide `g`, by whatever arithmetic, the counts are equal.
pub proof fn lemma_formulations_agree<
    Z,
    S1: Fn(Z) -> Z,
    E1: Fn(&Z) -> bool,
    S2: Fn(Z) -> Z,
    E2: Fn(&Z) -> bool,
>(
    step: S1,
    escaped: E1,
    other_step: S2,
    other_escaped: E2,
    f: spec_fn(Z) -> Z,
    g: spec_fn(Z) -> bool,
    seed: Z,
    cap: nat,
    a: nat,
    b: nat,
)
    requires
        computes(step, f),
        decides(escaped, g),
        computes(other_step, f),
        decides(other_escaped, g),
        escapes_at(step, escaped, seed, cap, a),
        escapes_at(other_step, other_escaped, seed, cap, b),
    ensures
        a == b,
{
    lemma_escape_time_is_first_escape(step, escaped, f, g, seed, cap, a);
    lemma_escape_time_is_first_escape(other_step, other_escaped, f, g, seed, cap, b);
    lemma_first_escape_unique(f, g, seed, cap, a, b);
}

} // verus!
