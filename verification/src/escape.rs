//! Escape-time evaluation: how many steps an orbit takes to leave a region.

use vstd::prelude::*;

verus! {

/// The iteration cap: an orbit that has not escaped after this many steps is
/// taken to be bounded.
pub const MAX_ITER: u32 = 256;

/// `orbit` is a run of `step` that begins at `start`: each state but the
/// first is what `step` returned for the state before it.
pub open spec fn is_orbit<Z, S: Fn(Z) -> Z>(step: S, start: Z, orbit: Seq<Z>) -> bool {
    &&& orbit.len() > 0
    &&& orbit[0] == start
    &&& forall|i: int|
        #![trigger orbit[i]]
        0 <= i < orbit.len() - 1 ==> call_ensures(step, (orbit[i],), orbit[i + 1])
}

/// `n` is the escape time of `orbit`: none of the first `n` states has
/// escaped, and the state after them has, unless the cap was reached first.
pub open spec fn escapes_at<Z, E: Fn(&Z) -> bool>(escaped: E, orbit: Seq<Z>, n: u32) -> bool {
    &&& n <= MAX_ITER
    &&& orbit.len() == n + 1
    &&& forall|i: int| 0 <= i < n ==> call_ensures(escaped, (&#[trigger] orbit[i],), false)
    &&& n < MAX_ITER ==> call_ensures(escaped, (&orbit[n as int],), true)
}

/// `step` gives one state for each state, whenever it is asked.
pub open spec fn single_valued_step<Z, S: Fn(Z) -> Z>(step: S) -> bool {
    forall|z: Z, a: Z, b: Z| call_ensures(step, (z,), a) && call_ensures(step, (z,), b) ==> a == b
}

/// `escaped` gives one answer for each state, whenever it is asked.
pub open spec fn single_valued_test<Z, E: Fn(&Z) -> bool>(escaped: E) -> bool {
    forall|z: Z| !(call_ensures(escaped, (&z,), true) && call_ensures(escaped, (&z,), false))
}

/// Counts the steps of the orbit from `start` until it escapes.
///
/// The orbit is tested before each step. The result is the number of steps
/// taken before the first state for which `escaped` answers `true`, or
/// `MAX_ITER` when the first `MAX_ITER` states all stay inside.
pub fn escape_time<Z, E: Fn(&Z) -> bool, S: Fn(Z) -> Z>(start: Z, escaped: E, step: S) -> (n: u32)
    requires
        forall|z: Z| call_requires(escaped, (&z,)),
        forall|z: Z| call_requires(step, (z,)),
    ensures
        exists|orbit: Seq<Z>| is_orbit(step, start, orbit) && escapes_at(escaped, orbit, n),
{
    let mut z = start;
    let mut i: u32 = 0;
    let ghost mut orbit: Seq<Z> = seq![start];
    while i < MAX_ITER
        invariant
            i <= MAX_ITER,
            orbit.len() == i + 1,
            orbit[i as int] == z,
            is_orbit(step, start, orbit),
            forall|k: int| 0 <= k < i ==> call_ensures(escaped, (&#[trigger] orbit[k],), false),
            forall|z: Z| call_requires(escaped, (&z,)),
            forall|z: Z| call_requires(step, (z,)),
        decreases MAX_ITER - i,
    {
        if escaped(&z) {
            return i;
        }
        z = step(z);
        proof {
            orbit = orbit.push(z);
        }
        i = i + 1;
    }
    i
}

/// Two runs of a single-valued `step` from one start pass through the same
/// states, as far as both go.
pub proof fn lemma_orbits_agree<Z, S: Fn(Z) -> Z>(step: S, start: Z, a: Seq<Z>, b: Seq<Z>, i: int)
    requires
        single_valued_step(step),
        is_orbit(step, start, a),
        is_orbit(step, start, b),
        0 <= i < a.len(),
        i < b.len(),
    ensures
        a[i] == b[i],
    decreases i,
{
    if i > 0 {
        lemma_orbits_agree(step, start, a, b, i - 1);
        assert(call_ensures(step, (a[i - 1],), a[i - 1 + 1]));
        assert(call_ensures(step, (b[i - 1],), b[i - 1 + 1]));
    }
}

/// The escape time is a function of the start: where the test and the step
/// are single-valued, any two evaluations from one start follow the same
/// orbit and give the same count.
pub proof fn lemma_escape_time_unique<Z, E: Fn(&Z) -> bool, S: Fn(Z) -> Z>(
    start: Z,
    escaped: E,
    step: S,
    a: Seq<Z>,
    n: u32,
    b: Seq<Z>,
    m: u32,
)
    requires
        single_valued_test(escaped),
        single_valued_step(step),
        is_orbit(step, start, a),
        escapes_at(escaped, a, n),
        is_orbit(step, start, b),
        escapes_at(escaped, b, m),
    ensures
        n == m,
        a == b,
{
    if n < m {
        lemma_orbits_agree(step, start, a, b, n as int);
        assert(call_ensures(escaped, (&b[n as int],), false));
    }
    if m < n {
        lemma_orbits_agree(step, start, a, b, m as int);
        assert(call_ensures(escaped, (&a[m as int],), false));
    }
    assert forall|i: int| 0 <= i < a.len() implies a[i] == b[i] by {
        lemma_orbits_agree(step, start, a, b, i);
    }
    assert(a =~= b);
}

} // verus!
