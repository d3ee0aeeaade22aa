use vstd::prelude::*;
use crate::error::IntegrationError;
use crate::series::{component_series, copy_state, rectangular};

verus! {

/// `states` is the orbit of `step` from `init`: it starts at `init` and each
/// state is what `step` returned on the state before it and that state's index.
pub open spec fn is_orbit<C, F: Fn(usize, &Vec<C>) -> Vec<C>>(
    step: F,
    init: Seq<C>,
    states: Seq<Vec<C>>,
) -> bool {
    &&& states.len() >= 1
    &&& states[0]@ == init
    &&& forall|i: int|
        #![trigger states[i]]
        0 <= i < states.len() - 1 ==> step.ensures((i as usize, &states[i]), states[i + 1])
}

/// Runs a fixed-step integrator for `num_intervals` equal steps.
///
/// `step(i, y)` advances state `y` from grid point `i` to grid point `i + 1`.
/// The sample recorded at index `i` is the state before the update at that
/// index, so `num_intervals + 1` samples are recorded and the update computed
/// at the last index is discarded.
pub fn fixed_step_samples<C: Copy, F: Fn(usize, &Vec<C>) -> Vec<C>>(
    num_intervals: usize,
    init: &Vec<C>,
    step: F,
) -> (r: Result<Vec<Vec<C>>, IntegrationError>)
    requires
        num_intervals < usize::MAX,
        forall|i: usize, y: &Vec<C>| #[trigger] step.requires((i, y)),
    ensures
        num_intervals == 0 <==> r == Err::<Vec<Vec<C>>, IntegrationError>(
            IntegrationError::ZeroIntervals,
        ),
        r is Err ==> r->Err_0 == IntegrationError::ZeroIntervals || r->Err_0
            == IntegrationError::DimensionMismatch,
        num_intervals > 0 && (forall|i: usize, y: &Vec<C>, v: Vec<C>|
            #[trigger] step.ensures((i, y), v) ==> v@.len() == y@.len()) ==> r is Ok,
        r is Ok ==> {
            &&& r->Ok_0@.len() == num_intervals + 1
            &&& rectangular(r->Ok_0@, init@.len())
            &&& is_orbit(step, init@, r->Ok_0@)
        },
        r == Err::<Vec<Vec<C>>, IntegrationError>(IntegrationError::DimensionMismatch) ==> exists|
            states: Seq<Vec<C>>,
            v: Vec<C>,
        |
            #![trigger is_orbit(step, init@, states), step.ensures(((states.len() - 1) as usize, &states.last()), v)]
            {
                &&& is_orbit(step, init@, states)
                &&& rectangular(states, init@.len())
                &&& states.len() <= num_intervals + 1
                &&& step.ensures(((states.len() - 1) as usize, &states.last()), v)
                &&& v@.len() != init@.len()
            },
{
    if num_intervals == 0 {
        return Err(IntegrationError::ZeroIntervals);
    }
    let dim = init.len();
    let mut samples: Vec<Vec<C>> = Vec::with_capacity(num_intervals + 1);
    let mut curr: Vec<C> = copy_state(init);
    let mut i: usize = 0;
    while i <= num_intervals
        invariant
            0 < num_intervals < usize::MAX,
            i <= num_intervals + 1,
            dim == init@.len(),
            forall|k: usize, y: &Vec<C>| #[trigger] step.requires((k, y)),
            samples@.len() == i,
            curr@.len() == dim,
            rectangular(samples@, dim as nat),
            i == 0 ==> curr@ == init@,
            i > 0 ==> samples@[0]@ == init@,
            i > 0 ==> step.ensures(((i - 1) as usize, &samples@[i - 1]), curr),
            forall|k: int|
                #![trigger samples@[k]]
                0 <= k < i - 1 ==> step.ensures((k as usize, &samples@[k]), samples@[k + 1]),
        decreases num_intervals + 1 - i,
    {
        let next = step(i, &curr);
        if next.len() != dim {
            proof {
                let w = samples@.push(curr);
                assert(w.last() == curr);
                assert forall|k: int|
                    #![trigger w[k]]
                    0 <= k < w.len() - 1 implies step.ensures((k as usize, &w[k]), w[k + 1]) by {
                    if k < i - 1 {
                        assert(w[k] == samples@[k] && w[k + 1] == samples@[k + 1]);
                    }
                }
                assert(is_orbit(step, init@, w));
                assert(rectangular(w, init@.len()));
                assert(step.ensures(((w.len() - 1) as usize, &w.last()), next));
            }
            return Err(IntegrationError::DimensionMismatch);
        }
        let ghost prev = samples@;
        samples.push(curr);
        assert forall|k: int|
            #![trigger samples@[k]]
            0 <= k < i implies step.ensures((k as usize, &samples@[k]), samples@[k + 1]) by {
            if k < i - 1 {
                assert(samples@[k] == prev[k] && samples@[k + 1] == prev[k + 1]);
            }
        }
        curr = next;
        i += 1;
    }
    Ok(samples)
}

/// Runs a fixed-step integrator as `fixed_step_samples` does and returns one
/// series per component: `init.len()` series of `num_intervals + 1` values,
/// value `i` of series `j` being component `j` of the state at grid point `i`.
pub fn fixed_step_series<C: Copy, F: Fn(usize, &Vec<C>) -> Vec<C>>(
    num_intervals: usize,
    init: &Vec<C>,
    step: F,
) -> (r: Result<Vec<Vec<C>>, IntegrationError>)
    requires
        num_intervals < usize::MAX,
        forall|i: usize, y: &Vec<C>| #[trigger] step.requires((i, y)),
    ensures
        num_intervals == 0 <==> r == Err::<Vec<Vec<C>>, IntegrationError>(
            IntegrationError::ZeroIntervals,
        ),
        r is Err ==> r->Err_0 == IntegrationError::ZeroIntervals || r->Err_0
            == IntegrationError::DimensionMismatch,
        num_intervals > 0 && (forall|i: usize, y: &Vec<C>, v: Vec<C>|
            #[trigger] step.ensures((i, y), v) ==> v@.len() == y@.len()) ==> r is Ok,
        r is Ok ==> {
            &&& r->Ok_0@.len() == init@.len()
            &&& forall|j: int|
                0 <= j < init@.len() ==> (#[trigger] r->Ok_0@[j])@.len() == num_intervals + 1
            &&& exists|states: Seq<Vec<C>>|
                #[trigger] is_orbit(step, init@, states) && states.len() == num_intervals + 1
                    && forall|j: int, i: int|
                    0 <= j < init@.len() && 0 <= i <= num_intervals ==> #[trigger] r->Ok_0@[j]@[i]
                        == states[i]@[j]
        },
{
    match fixed_step_samples(num_intervals, init, step) {
        Ok(samples) => {
            let r = component_series(&samples, init.len());
            assert(is_orbit(step, init@, samples@));
            Ok(r)
        },
        Err(e) => Err(e),
    }
}

/// The time of each of the `num_intervals + 1` grid points: entry `i` is what
/// `time_at` returns for index `i`.
pub fn grid_times<S, G: Fn(usize) -> S>(num_intervals: usize, time_at: G) -> (r: Vec<S>)
    requires
        num_intervals < usize::MAX,
        forall|i: usize| #[trigger] time_at.requires((i,)),
    ensures
        r@.len() == num_intervals + 1,
        forall|i: int| 0 <= i <= num_intervals ==> time_at.ensures((i as usize,), #[trigger] r@[i]),
{
    let mut r: Vec<S> = Vec::with_capacity(num_intervals + 1);
    let mut i: usize = 0;
    while i <= num_intervals
        invariant
            num_intervals < usize::MAX,
            i <= num_intervals + 1,
            r@.len() == i,
            forall|k: usize| #[trigger] time_at.requires((k,)),
            forall|k: int| 0 <= k < i ==> time_at.ensures((k as usize,), #[trigger] r@[k]),
        decreases num_intervals + 1 - i,
    {
        r.push(time_at(i));
        i += 1;
    }
    r
}

} // verus!

verus! {

/// A step is deterministic when states with equal contents at the same index
/// always lead to next states with equal contents.
pub open spec fn deterministic_step<C, F: Fn(usize, &Vec<C>) -> Vec<C>>(step: F) -> bool {
    forall|i: usize, y1: &Vec<C>, y2: &Vec<C>, r1: Vec<C>, r2: Vec<C>|
        #![trigger step.ensures((i, y1), r1), step.ensures((i, y2), r2)]
        y1@ == y2@ && step.ensures((i, y1), r1) && step.ensures((i, y2), r2) ==> r1@ == r2@
}

/// Two fixed-step runs of equal length from the same initial state with the
/// same deterministic step record identical samples.
pub proof fn fixed_step_runs_agree<C, F: Fn(usize, &Vec<C>) -> Vec<C>>(
    step: F,
    init: Seq<C>,
    s1: Seq<Vec<C>>,
    s2: Seq<Vec<C>>,
)
    requires
        deterministic_step(step),
        is_orbit(step, init, s1),
        is_orbit(step, init, s2),
        s1.len() == s2.len(),
    ensures
        forall|i: int| 0 <= i < s1.len() ==> (#[trigger] s1[i])@ == s2[i]@,
{
    assert forall|i: int| 0 <= i < s1.len() implies (#[trigger] s1[i])@ == s2[i]@ by {
        orbits_agree_upto(step, init, s1, s2, i);
    }
}

proof fn orbits_agree_upto<C, F: Fn(usize, &Vec<C>) -> Vec<C>>(
    step: F,
    init: Seq<C>,
    s1: Seq<Vec<C>>,
    s2: Seq<Vec<C>>,
    i: int,
)
    requires
        deterministic_step(step),
        is_orbit(step, init, s1),
        is_orbit(step, init, s2),
        s1.len() == s2.len(),
        0 <= i < s1.len(),
    ensures
        s1[i]@ == s2[i]@,
    decreases i,
{
    if i > 0 {
        orbits_agree_upto(step, init, s1, s2, i - 1);
        assert(step.ensures(((i - 1) as usize, &s1[i - 1]), s1[i]));
        assert(step.ensures(((i - 1) as usize, &s2[i - 1]), s2[i]));
    }
}

} // verus!
