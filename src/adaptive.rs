use vstd::prelude::*;
use crate::error::IntegrationError;
use crate::series::{copy_state, rectangular};

verus! {

/// `h` lies in `[lo, hi]` as `less` observed it: it is one of the two bounds,
/// or `less` reported `lo < h` and `h < hi`.
pub open spec fn within_bounds<S, L: Fn(S, S) -> bool>(less: L, h: S, lo: S, hi: S) -> bool {
    h == lo || h == hi || (less.ensures((lo, h), true) && less.ensures((h, hi), true))
}

/// `h` is what clamping `x` to `[lo, hi]` gives for the answers `less` gave:
/// `x` where `lo < x` and `x < hi`; `lo` where not `lo < x` and `lo < hi`;
/// `hi` in the two remaining cases.
pub open spec fn clamped<S, L: Fn(S, S) -> bool>(less: L, x: S, lo: S, hi: S, h: S) -> bool {
    ||| h == x && less.ensures((lo, x), true) && less.ensures((x, hi), true)
    ||| h == lo && less.ensures((lo, x), false) && less.ensures((lo, hi), true)
    ||| h == hi && less.ensures((lo, x), true) && less.ensures((x, hi), false)
    ||| h == hi && less.ensures((lo, x), false) && less.ensures((lo, hi), false)
}

/// Clamps a proposed step `x` to `[lo, hi]`: first raised to `lo` unless
/// `lo < x`, then lowered to `hi` unless it is below `hi`.
/// A proposal that compares with nothing (not a number) becomes `lo` when
/// `lo < hi`, and `hi` otherwise.
pub fn clamp_step<S: Copy, L: Fn(S, S) -> bool>(x: S, lo: S, hi: S, less: &L) -> (h: S)
    requires
        forall|a: S, b: S| #[trigger] less.requires((a, b)),
    ensures
        within_bounds(*less, h, lo, hi),
        clamped(*less, x, lo, hi, h),
{
    let raise = less(lo, x);
    let m = if raise { x } else { lo };
    let lower = less(m, hi);
    if lower {
        m
    } else {
        hi
    }
}

/// The accepted samples of an adaptive run, in time order.
///
/// Sample `k` is the state `states[k]` at time `times[k]`, recorded before the
/// step of size `steps[k]` was applied to it; `errors[k]` is that step's error
/// estimate. `final_time` is the time reached when the run stopped.
pub struct AdaptiveSamples<C, S> {
    pub times: Vec<S>,
    pub states: Vec<Vec<C>>,
    pub steps: Vec<S>,
    pub errors: Vec<S>,
    pub final_time: S,
}

impl<C, S> AdaptiveSamples<C, S> {
    /// The four per-sample sequences have one entry per accepted sample.
    pub open spec fn aligned(&self) -> bool {
        &&& self.states@.len() == self.times@.len()
        &&& self.steps@.len() == self.times@.len()
        &&& self.errors@.len() == self.times@.len()
    }
}

/// The caller's arithmetic for an adaptive run: `in_range(t)` tests `t`
/// against the end time, `trial(t, h, y)` gives a candidate state and its error
/// estimate, `accept(err)` compares the estimate with the tolerance,
/// `advance(t, h)` is the next time, `propose(h, err)` is the unclamped next
/// step size, `less` compares reals and `is_zero` tests a step size for zero.
pub struct Controls<R, T, A, V, P, L, Z> {
    pub in_range: R,
    pub trial: T,
    pub accept: A,
    pub advance: V,
    pub propose: P,
    pub less: L,
    pub is_zero: Z,
}

/// Time, state and step size before a trial.
pub struct RunState<C, S> {
    pub t: S,
    pub y: Vec<C>,
    pub h: S,
}

/// What a trial produced: the candidate state, its error estimate, whether it
/// was accepted, and the unclamped step size proposed after it.
pub struct TrialRecord<C, S> {
    pub next: Vec<C>,
    pub err: S,
    pub accepted: bool,
    pub proposed: S,
}

/// One trial from state `s` that produced `tr` and led to state `s2`, with
/// `zero` the answer of `is_zero` on the new step size. An accepted trial
/// moves to the candidate state and the advanced time; a rejected one keeps
/// both. Either way the new step size is the proposal clamped to `[h_min, h_max]`.
pub open spec fn trial_step<C, S, R: Fn(S) -> bool, T: Fn(S, S, &Vec<C>) -> (Vec<C>, S), A: Fn(S) -> bool, V: Fn(S, S) -> S, P: Fn(S, S) -> S, L: Fn(S, S) -> bool, Z: Fn(S) -> bool>(
    ctl: Controls<R, T, A, V, P, L, Z>,
    h_min: S,
    h_max: S,
    s: RunState<C, S>,
    tr: TrialRecord<C, S>,
    s2: RunState<C, S>,
    zero: bool,
) -> bool {
    &&& ctl.in_range.ensures((s.t,), true)
    &&& ctl.trial.ensures((s.t, s.h, &s.y), (tr.next, tr.err))
    &&& tr.next@.len() == s.y@.len()
    &&& ctl.accept.ensures((tr.err,), tr.accepted)
    &&& if tr.accepted {
        ctl.advance.ensures((s.t, s.h), s2.t) && s2.y == tr.next
    } else {
        s2.t == s.t && s2.y == s.y
    }
    &&& ctl.propose.ensures((s.h, tr.err), tr.proposed)
    &&& clamped(ctl.less, tr.proposed, h_min, h_max, s2.h)
    &&& ctl.is_zero.ensures((s2.h,), zero)
}

/// `states` and `trials` are the course of a run: it starts at `t_start` with
/// `init` and step size `h_min`, and each trial leads from one state to the
/// next with a step size that is not zero.
pub open spec fn valid_trace<C, S, R: Fn(S) -> bool, T: Fn(S, S, &Vec<C>) -> (Vec<C>, S), A: Fn(S) -> bool, V: Fn(S, S) -> S, P: Fn(S, S) -> S, L: Fn(S, S) -> bool, Z: Fn(S) -> bool>(
    ctl: Controls<R, T, A, V, P, L, Z>,
    t_start: S,
    h_min: S,
    h_max: S,
    init: Seq<C>,
    states: Seq<RunState<C, S>>,
    trials: Seq<TrialRecord<C, S>>,
) -> bool {
    &&& states.len() == trials.len() + 1
    &&& states[0].t == t_start
    &&& states[0].y@ == init
    &&& states[0].h == h_min
    &&& forall|k: int|
        #![trigger trials[k]]
        0 <= k < trials.len() ==> trial_step(ctl, h_min, h_max, states[k], trials[k], states[k + 1], false)
}

/// Indices of the accepted trials, in order.
pub open spec fn accepted_indices<C, S>(trials: Seq<TrialRecord<C, S>>) -> Seq<int>
    decreases trials.len(),
{
    if trials.len() == 0 {
        Seq::empty()
    } else {
        let prev = accepted_indices(trials.drop_last());
        if trials.last().accepted {
            prev.push(trials.len() - 1)
        } else {
            prev
        }
    }
}

/// `o` records exactly the accepted trials of the run: for the `k`-th of them,
/// its time, state and step size before the trial, and its error estimate.
pub open spec fn records<C, S>(
    o: AdaptiveSamples<C, S>,
    states: Seq<RunState<C, S>>,
    trials: Seq<TrialRecord<C, S>>,
) -> bool {
    let idx = accepted_indices(trials);
    &&& o.aligned()
    &&& o.times@.len() == idx.len()
    &&& forall|k: int|
        #![trigger idx[k]]
        0 <= k < idx.len() ==> {
            &&& o.times@[k] == states[idx[k]].t
            &&& o.states@[k] == states[idx[k]].y
            &&& o.steps@[k] == states[idx[k]].h
            &&& o.errors@[k] == trials[idx[k]].err
        }
}

/// Every step size of a run lies in `[h_min, h_max]`.
pub proof fn trace_steps_within_bounds<C, S, R: Fn(S) -> bool, T: Fn(S, S, &Vec<C>) -> (Vec<C>, S), A: Fn(S) -> bool, V: Fn(S, S) -> S, P: Fn(S, S) -> S, L: Fn(S, S) -> bool, Z: Fn(S) -> bool>(
    ctl: Controls<R, T, A, V, P, L, Z>,
    t_start: S,
    h_min: S,
    h_max: S,
    init: Seq<C>,
    states: Seq<RunState<C, S>>,
    trials: Seq<TrialRecord<C, S>>,
)
    requires
        valid_trace(ctl, t_start, h_min, h_max, init, states, trials),
    ensures
        forall|k: int|
            0 <= k < states.len() ==> within_bounds(ctl.less, #[trigger] states[k].h, h_min, h_max),
{
    assert forall|k: int| 0 <= k < states.len() implies within_bounds(
        ctl.less,
        #[trigger] states[k].h,
        h_min,
        h_max,
    ) by {
        if k > 0 {
            assert(trial_step(ctl, h_min, h_max, states[k - 1], trials[k - 1], states[k], false));
        }
    }
}

/// Each callback gives one answer per argument; `trial` gives equal answers on
/// states with equal contents.
pub open spec fn deterministic_controls<C, S, R: Fn(S) -> bool, T: Fn(S, S, &Vec<C>) -> (Vec<C>, S), A: Fn(S) -> bool, V: Fn(S, S) -> S, P: Fn(S, S) -> S, L: Fn(S, S) -> bool, Z: Fn(S) -> bool>(ctl: Controls<R, T, A, V, P, L, Z>) -> bool {
    &&& forall|t: S, b1: bool, b2: bool|
        #![trigger ctl.in_range.ensures((t,), b1), ctl.in_range.ensures((t,), b2)]
        ctl.in_range.ensures((t,), b1) && ctl.in_range.ensures((t,), b2) ==> b1 == b2
    &&& forall|t: S, h: S, y1: &Vec<C>, y2: &Vec<C>, v1: Vec<C>, e1: S, v2: Vec<C>, e2: S|
        #![trigger ctl.trial.ensures((t, h, y1), (v1, e1)), ctl.trial.ensures((t, h, y2), (v2, e2))]
        y1@ == y2@ && ctl.trial.ensures((t, h, y1), (v1, e1)) && ctl.trial.ensures((t, h, y2), (v2, e2))
            ==> v1@ == v2@ && e1 == e2
    &&& forall|e: S, b1: bool, b2: bool|
        #![trigger ctl.accept.ensures((e,), b1), ctl.accept.ensures((e,), b2)]
        ctl.accept.ensures((e,), b1) && ctl.accept.ensures((e,), b2) ==> b1 == b2
    &&& forall|t: S, h: S, u1: S, u2: S|
        #![trigger ctl.advance.ensures((t, h), u1), ctl.advance.ensures((t, h), u2)]
        ctl.advance.ensures((t, h), u1) && ctl.advance.ensures((t, h), u2) ==> u1 == u2
    &&& forall|h: S, e: S, u1: S, u2: S|
        #![trigger ctl.propose.ensures((h, e), u1), ctl.propose.ensures((h, e), u2)]
        ctl.propose.ensures((h, e), u1) && ctl.propose.ensures((h, e), u2) ==> u1 == u2
    &&& forall|a: S, b: S, b1: bool, b2: bool|
        #![trigger ctl.less.ensures((a, b), b1), ctl.less.ensures((a, b), b2)]
        ctl.less.ensures((a, b), b1) && ctl.less.ensures((a, b), b2) ==> b1 == b2
}

proof fn traces_agree_upto<C, S, R: Fn(S) -> bool, T: Fn(S, S, &Vec<C>) -> (Vec<C>, S), A: Fn(S) -> bool, V: Fn(S, S) -> S, P: Fn(S, S) -> S, L: Fn(S, S) -> bool, Z: Fn(S) -> bool>(
    ctl: Controls<R, T, A, V, P, L, Z>,
    t_start: S,
    h_min: S,
    h_max: S,
    init: Seq<C>,
    st1: Seq<RunState<C, S>>,
    trs1: Seq<TrialRecord<C, S>>,
    st2: Seq<RunState<C, S>>,
    trs2: Seq<TrialRecord<C, S>>,
    k: int,
)
    requires
        deterministic_controls(ctl),
        valid_trace(ctl, t_start, h_min, h_max, init, st1, trs1),
        valid_trace(ctl, t_start, h_min, h_max, init, st2, trs2),
        0 <= k < st1.len(),
        k < st2.len(),
    ensures
        st1[k].t == st2[k].t,
        st1[k].y@ == st2[k].y@,
        st1[k].h == st2[k].h,
    decreases k,
{
    if k > 0 {
        traces_agree_upto(ctl, t_start, h_min, h_max, init, st1, trs1, st2, trs2, k - 1);
        let (a, b) = (trs1[k - 1], trs2[k - 1]);
        assert(trial_step(ctl, h_min, h_max, st1[k - 1], a, st1[k], false));
        assert(trial_step(ctl, h_min, h_max, st2[k - 1], b, st2[k], false));
        assert(a.err == b.err && a.next@ == b.next@);
        assert(a.accepted == b.accepted);
        assert(a.proposed == b.proposed);
    }
}

proof fn accepted_indices_agree<C, S>(trs1: Seq<TrialRecord<C, S>>, trs2: Seq<TrialRecord<C, S>>)
    requires
        trs1.len() == trs2.len(),
        forall|k: int| 0 <= k < trs1.len() ==> (#[trigger] trs1[k]).accepted == trs2[k].accepted,
    ensures
        accepted_indices(trs1) == accepted_indices(trs2),
    decreases trs1.len(),
{
    if trs1.len() > 0 {
        let (d1, d2) = (trs1.drop_last(), trs2.drop_last());
        assert forall|k: int| 0 <= k < d1.len() implies (#[trigger] d1[k]).accepted == d2[k].accepted by {
            assert(d1[k] == trs1[k] && d2[k] == trs2[k]);
        }
        accepted_indices_agree(d1, d2);
    }
}

/// Two completed runs from the same inputs with deterministic callbacks take
/// the same number of trials, pass through the same times, states and step
/// sizes, and record the same samples.
pub proof fn adaptive_runs_agree<C, S, R: Fn(S) -> bool, T: Fn(S, S, &Vec<C>) -> (Vec<C>, S), A: Fn(S) -> bool, V: Fn(S, S) -> S, P: Fn(S, S) -> S, L: Fn(S, S) -> bool, Z: Fn(S) -> bool>(
    ctl: Controls<R, T, A, V, P, L, Z>,
    t_start: S,
    h_min: S,
    h_max: S,
    init: Seq<C>,
    st1: Seq<RunState<C, S>>,
    trs1: Seq<TrialRecord<C, S>>,
    o1: AdaptiveSamples<C, S>,
    st2: Seq<RunState<C, S>>,
    trs2: Seq<TrialRecord<C, S>>,
    o2: AdaptiveSamples<C, S>,
)
    requires
        deterministic_controls(ctl),
        valid_trace(ctl, t_start, h_min, h_max, init, st1, trs1),
        valid_trace(ctl, t_start, h_min, h_max, init, st2, trs2),
        ctl.in_range.ensures((st1.last().t,), false),
        ctl.in_range.ensures((st2.last().t,), false),
        o1.final_time == st1.last().t,
        o2.final_time == st2.last().t,
        records(o1, st1, trs1),
        records(o2, st2, trs2),
    ensures
        trs1.len() == trs2.len(),
        forall|k: int|
            0 <= k < st1.len() ==> (#[trigger] st1[k]).t == st2[k].t && st1[k].y@ == st2[k].y@
                && st1[k].h == st2[k].h,
        o1.times@ == o2.times@,
        o1.steps@ == o2.steps@,
        o1.errors@ == o2.errors@,
        o1.states@.len() == o2.states@.len(),
        forall|k: int| 0 <= k < o1.states@.len() ==> (#[trigger] o1.states@[k])@ == o2.states@[k]@,
        o1.final_time == o2.final_time,
{
    if trs1.len() < trs2.len() {
        let n = trs1.len() as int;
        traces_agree_upto(ctl, t_start, h_min, h_max, init, st1, trs1, st2, trs2, n);
        assert(trial_step(ctl, h_min, h_max, st2[n], trs2[n], st2[n + 1], false));
    }
    if trs2.len() < trs1.len() {
        let n = trs2.len() as int;
        traces_agree_upto(ctl, t_start, h_min, h_max, init, st1, trs1, st2, trs2, n);
        assert(trial_step(ctl, h_min, h_max, st1[n], trs1[n], st1[n + 1], false));
    }
    assert forall|k: int| 0 <= k < st1.len() implies (#[trigger] st1[k]).t == st2[k].t && st1[k].y@
        == st2[k].y@ && st1[k].h == st2[k].h by {
        traces_agree_upto(ctl, t_start, h_min, h_max, init, st1, trs1, st2, trs2, k);
    }
    assert forall|k: int| 0 <= k < trs1.len() implies (#[trigger] trs1[k]).accepted == trs2[k].accepted
        && trs1[k].err == trs2[k].err by {
        traces_agree_upto(ctl, t_start, h_min, h_max, init, st1, trs1, st2, trs2, k);
        assert(trial_step(ctl, h_min, h_max, st1[k], trs1[k], st1[k + 1], false));
        assert(trial_step(ctl, h_min, h_max, st2[k], trs2[k], st2[k + 1], false));
    }
    accepted_indices_agree(trs1, trs2);
    let idx = accepted_indices(trs1);
    assert forall|k: int| 0 <= k < idx.len() implies 0 <= #[trigger] idx[k] < trs1.len() by {
        accepted_indices_in_range(trs1);
    }
    assert forall|k: int| 0 <= k < idx.len() implies {
        &&& o1.times@[k] == o2.times@[k]
        &&& o1.steps@[k] == o2.steps@[k]
        &&& o1.errors@[k] == o2.errors@[k]
        &&& o1.states@[k]@ == o2.states@[k]@
    } by {
        let j = idx[k];
        assert(st1[j].t == st2[j].t && st1[j].y@ == st2[j].y@ && st1[j].h == st2[j].h);
        assert(trs1[j].err == trs2[j].err);
    }
    assert(o1.times@ =~= o2.times@);
    assert(o1.steps@ =~= o2.steps@);
    assert(o1.errors@ =~= o2.errors@);
    assert forall|k: int| 0 <= k < o1.states@.len() implies (#[trigger] o1.states@[k])@
        == o2.states@[k]@ by {
        let j = idx[k];
        assert(st1[j].y@ == st2[j].y@);
        assert(o1.states@[k] == st1[j].y && o2.states@[k] == st2[j].y);
    }
}

proof fn accepted_indices_in_range<C, S>(trs: Seq<TrialRecord<C, S>>)
    ensures
        forall|k: int|
            0 <= k < accepted_indices(trs).len() ==> 0 <= #[trigger] accepted_indices(trs)[k] < trs.len(),
    decreases trs.len(),
{
    if trs.len() > 0 {
        let prev = accepted_indices(trs.drop_last());
        accepted_indices_in_range(trs.drop_last());
        assert forall|k: int| 0 <= k < accepted_indices(trs).len() implies 0
            <= #[trigger] accepted_indices(trs)[k] < trs.len() by {
            if k < prev.len() {
                assert(accepted_indices(trs)[k] == prev[k]);
            }
        }
    }
}

/// Runs an adaptive embedded integrator from `t_start` with `init`.
///
/// While `in_range(t)` holds, one trial step `trial(t, h, y)` gives a candidate
/// state and an error estimate `err`. If `accept(err)`, the current state is
/// recorded and replaced by the candidate and `t` becomes `advance(t, h)`;
/// otherwise state and time stay. Either way the next step size is
/// `propose(h, err)` clamped to `[h_min, h_max]`; a step size for which
/// `is_zero` holds ends the run with `DegenerateStep`. The first step size is
/// `h_min`. A candidate whose length differs from the state's ends the run
/// with `DimensionMismatch`. When `max_iterations` trials have been made and
/// the time is still in range, the run ends with `IterationLimit`.
pub fn adaptive_samples<C, S, R, T, A, V, P, L, Z>(
    init: &Vec<C>,
    t_start: S,
    h_min: S,
    h_max: S,
    max_iterations: usize,
    in_range: R,
    trial: T,
    accept: A,
    advance: V,
    propose: P,
    less: L,
    is_zero: Z,
) -> (r: Result<AdaptiveSamples<C, S>, IntegrationError>) where
    C: Copy,
    S: Copy,
    R: Fn(S) -> bool,
    T: Fn(S, S, &Vec<C>) -> (Vec<C>, S),
    A: Fn(S) -> bool,
    V: Fn(S, S) -> S,
    P: Fn(S, S) -> S,
    L: Fn(S, S) -> bool,
    Z: Fn(S) -> bool,

    requires
        forall|t: S| #[trigger] in_range.requires((t,)),
        forall|t: S, h: S, y: &Vec<C>| #[trigger] trial.requires((t, h, y)),
        forall|e: S| #[trigger] accept.requires((e,)),
        forall|t: S, h: S| #[trigger] advance.requires((t, h)),
        forall|h: S, e: S| #[trigger] propose.requires((h, e)),
        forall|a: S, b: S| #[trigger] less.requires((a, b)),
        forall|h: S| #[trigger] is_zero.requires((h,)),
    ensures
        ({
            let ctl = (Controls { in_range, trial, accept, advance, propose, less, is_zero });
            &&& r is Ok ==> rectangular(r->Ok_0.states@, init@.len())
            &&& r is Ok ==> exists|st: Seq<RunState<C, S>>, trs: Seq<TrialRecord<C, S>>|
                #[trigger] valid_trace(ctl, t_start, h_min, h_max, init@, st, trs) && {
                    &&& trs.len() <= max_iterations
                    &&& in_range.ensures((st.last().t,), false)
                    &&& r->Ok_0.final_time == st.last().t
                    &&& records(r->Ok_0, st, trs)
                }
            &&& r == Err::<AdaptiveSamples<C, S>, IntegrationError>(IntegrationError::IterationLimit)
                ==> exists|st: Seq<RunState<C, S>>, trs: Seq<TrialRecord<C, S>>|
                #[trigger] valid_trace(ctl, t_start, h_min, h_max, init@, st, trs) && {
                    &&& trs.len() == max_iterations
                    &&& in_range.ensures((st.last().t,), true)
                }
            &&& r == Err::<AdaptiveSamples<C, S>, IntegrationError>(IntegrationError::DimensionMismatch)
                ==> exists|st: Seq<RunState<C, S>>, trs: Seq<TrialRecord<C, S>>, v: Vec<C>, e: S|
                #![trigger valid_trace(ctl, t_start, h_min, h_max, init@, st, trs), trial.ensures((st.last().t, st.last().h, &st.last().y), (v, e))]
                valid_trace(ctl, t_start, h_min, h_max, init@, st, trs) && {
                    &&& trs.len() < max_iterations
                    &&& in_range.ensures((st.last().t,), true)
                    &&& trial.ensures((st.last().t, st.last().h, &st.last().y), (v, e))
                    &&& v@.len() != st.last().y@.len()
                }
            &&& r == Err::<AdaptiveSamples<C, S>, IntegrationError>(IntegrationError::DegenerateStep)
                ==> exists|st: Seq<RunState<C, S>>, trs: Seq<TrialRecord<C, S>>, tr: TrialRecord<C, S>, s2: RunState<C, S>|
                #![trigger valid_trace(ctl, t_start, h_min, h_max, init@, st, trs), trial_step(ctl, h_min, h_max, st.last(), tr, s2, true)]
                valid_trace(ctl, t_start, h_min, h_max, init@, st, trs) && {
                    &&& trs.len() < max_iterations
                    &&& trial_step(ctl, h_min, h_max, st.last(), tr, s2, true)
                }
        }),
{
    let ghost ctl = Controls { in_range, trial, accept, advance, propose, less, is_zero };
    let dim = init.len();
    let mut times: Vec<S> = Vec::new();
    let mut states: Vec<Vec<C>> = Vec::new();
    let mut steps: Vec<S> = Vec::new();
    let mut errors: Vec<S> = Vec::new();
    let mut curr: Vec<C> = copy_state(init);
    let mut t: S = t_start;
    let mut h: S = h_min;
    let mut iteration: usize = 0;
    let ghost mut st: Seq<RunState<C, S>> = seq![RunState { t: t_start, y: curr, h: h_min }];
    let ghost mut trs: Seq<TrialRecord<C, S>> = Seq::empty();
    loop
        invariant
            forall|t: S| #[trigger] in_range.requires((t,)),
            forall|t: S, h: S, y: &Vec<C>| #[trigger] trial.requires((t, h, y)),
            forall|e: S| #[trigger] accept.requires((e,)),
            forall|t: S, h: S| #[trigger] advance.requires((t, h)),
            forall|h: S, e: S| #[trigger] propose.requires((h, e)),
            forall|a: S, b: S| #[trigger] less.requires((a, b)),
            forall|h: S| #[trigger] is_zero.requires((h,)),
            ctl == (Controls { in_range, trial, accept, advance, propose, less, is_zero }),
            iteration <= max_iterations,
            trs.len() == iteration,
            dim == init@.len(),
            curr@.len() == dim,
            rectangular(states@, dim as nat),
            valid_trace(ctl, t_start, h_min, h_max, init@, st, trs),
            st.last() == (RunState { t, y: curr, h }),
            forall|k: int|
                #![trigger accepted_indices(trs)[k]]
                0 <= k < accepted_indices(trs).len() ==> 0 <= accepted_indices(trs)[k] < trs.len(),
            records(AdaptiveSamples { times, states, steps, errors, final_time: t }, st, trs),
        decreases max_iterations - iteration,
    {
        if !in_range(t) {
            return Ok(AdaptiveSamples { times, states, steps, errors, final_time: t });
        }
        if iteration == max_iterations {
            return Err(IntegrationError::IterationLimit);
        }
        let (next, err) = trial(t, h, &curr);
        if next.len() != dim {
            return Err(IntegrationError::DimensionMismatch);
        }
        let accepted = accept(err);
        let ghost s = st.last();
        let ghost next_g = next;
        let ghost old_idx = accepted_indices(trs);
        let ghost old_times = times@;
        let ghost old_states = states@;
        let ghost old_steps = steps@;
        let ghost old_errors = errors@;
        if accepted {
            let t_next = advance(t, h);
            times.push(t);
            states.push(curr);
            steps.push(h);
            errors.push(err);
            curr = next;
            t = t_next;
        }
        let proposed = propose(h, err);
        let h_next = clamp_step(proposed, h_min, h_max, &less);
        let zero = is_zero(h_next);
        let ghost rec = TrialRecord { next: next_g, err, accepted, proposed };
        let ghost s2 = RunState { t, y: curr, h: h_next };
        assert(trial_step(ctl, h_min, h_max, s, rec, s2, zero));
        if zero {
            return Err(IntegrationError::DegenerateStep);
        }
        h = h_next;
        proof {
            let st0 = st;
            let trs0 = trs;
            st = st.push(s2);
            trs = trs.push(rec);
            assert(trs.drop_last() =~= trs0);
            assert forall|k: int|
                #![trigger trs[k]]
                0 <= k < trs.len() implies trial_step(ctl, h_min, h_max, st[k], trs[k], st[k + 1], false) by {
                if k < trs.len() - 1 {
                    assert(st[k] == st0[k] && st[k + 1] == st0[k + 1] && trs[k] == trs0[k]);
                }
            }
            let idx = accepted_indices(trs);
            assert forall|k: int|
                #![trigger idx[k]]
                0 <= k < idx.len() implies {
                    &&& times@[k] == st[idx[k]].t
                    &&& states@[k] == st[idx[k]].y
                    &&& steps@[k] == st[idx[k]].h
                    &&& errors@[k] == trs[idx[k]].err
                } by {
                if k < old_idx.len() {
                    assert(idx[k] == old_idx[k]);
                    assert(st[idx[k]] == st0[old_idx[k]]);
                    assert(trs[idx[k]] == trs0[old_idx[k]]);
                }
            }
        }
        iteration += 1;
    }
}

} // verus!
