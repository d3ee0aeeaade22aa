use corr_ode::adaptive::{adaptive_samples, clamp_step, AdaptiveSamples};
use corr_ode::error::IntegrationError;
use corr_ode::fixed_step::{fixed_step_samples, fixed_step_series, grid_times};
use corr_ode::initial::corr_init_vec_ada_order_2__2e_2;
use corr_ode::series::{component_series, copy_state};
use num::complex::Complex64;

type Cvecf = Vec<Complex64>;
type Deriv = fn(f64, &Cvecf) -> Cvecf;

const A: [f64; 6] = [0.0, 1.0 / 4.0, 3.0 / 8.0, 12.0 / 13.0, 1.0, 1.0 / 2.0];
const B: [[f64; 5]; 5] = [
    [1.0 / 4.0, 0.0, 0.0, 0.0, 0.0],
    [3.0 / 32.0, 9.0 / 32.0, 0.0, 0.0, 0.0],
    [1932.0 / 2197.0, -7200.0 / 2197.0, 7296.0 / 2197.0, 0.0, 0.0],
    [439.0 / 216.0, -8.0, 3680.0 / 513.0, -845.0 / 4104.0, 0.0],
    [-8.0 / 27.0, 2.0, -3544.0 / 2565.0, 1859.0 / 4104.0, -11.0 / 40.0],
];
const CH: [f64; 6] = [16.0 / 135.0, 0.0, 6656.0 / 12825.0, 28561.0 / 56430.0, -9.0 / 50.0, 2.0 / 55.0];
const CT: [f64; 6] = [-1.0 / 360.0, 0.0, 128.0 / 4275.0, 2197.0 / 75240.0, -1.0 / 50.0, -2.0 / 55.0];
const TOL: f64 = 0.0001;

fn axpy(y: &Cvecf, a: f64, k: &Cvecf) -> Cvecf {
    y.iter().zip(k.iter()).map(|(yi, ki)| yi + a * ki).collect()
}

fn rk4_update(f: Deriv, t: f64, h: f64, y: &Cvecf) -> Cvecf {
    let k1 = f(t, y);
    let k2 = f(t + h / 2.0, &axpy(y, h / 2.0, &k1));
    let k3 = f(t + h / 2.0, &axpy(y, h / 2.0, &k2));
    let k4 = f(t + h, &axpy(y, h, &k3));
    (0..y.len())
        .map(|j| y[j] + h / 6.0 * (k1[j] + 2.0 * k2[j] + 2.0 * k3[j] + k4[j]))
        .collect()
}

fn rk4_run(f: Deriv, t_start: f64, t_end: f64, n: usize, init: &Cvecf) -> Result<Vec<Cvecf>, IntegrationError> {
    let h = (t_end - t_start) / n as f64;
    fixed_step_samples(n, init, move |i: usize, y: &Cvecf| rk4_update(f, t_start + i as f64 * h, h, y))
}

fn norm(v: &Cvecf) -> f64 {
    v.iter().map(|c| (c * c.conj()).re).sum::<f64>().sqrt()
}

fn rkf45_trial(f: Deriv, t: f64, h: f64, y: &Cvecf) -> (Cvecf, f64) {
    let mut ks: Vec<Cvecf> = Vec::new();
    for s in 0..6 {
        let mut arg = y.clone();
        for (m, k) in ks.iter().enumerate() {
            arg = axpy(&arg, B[s - 1][m], k);
        }
        let k: Cvecf = f(t + A[s] * h, &arg).iter().map(|c| c * h).collect();
        ks.push(k);
    }
    let mut y5 = y.clone();
    let mut te = vec![Complex64::new(0.0, 0.0); y.len()];
    for (s, k) in ks.iter().enumerate() {
        y5 = axpy(&y5, CH[s], k);
        te = axpy(&te, CT[s], k);
    }
    (y5, norm(&te))
}

fn rkf45_run(f: Deriv, t_start: f64, t_end: f64, init: &Cvecf) -> Result<AdaptiveSamples<Complex64, f64>, IntegrationError> {
    let h_max = (t_end - t_start) / 10.0;
    let h_min = (t_end - t_start) / 1000000000.0;
    adaptive_samples(
        init,
        t_start,
        h_min,
        h_max,
        usize::MAX,
        |t: f64| t <= t_end,
        |t: f64, h: f64, y: &Cvecf| rkf45_trial(f, t, h, y),
        |e: f64| e <= TOL,
        |t: f64, h: f64| t + h,
        |h: f64, e: f64| 0.9 * h * (TOL / e).powf(1.0 / 5.0),
        |a: f64, b: f64| a < b,
        |h: f64| h == 0.0,
    )
}

fn diff_equ_test(time: f64, yn: &Cvecf) -> Cvecf {
    vec![time.sin().powi(2) * yn[0]]
}

fn diff_equ_test_2(_time: f64, yn: &Cvecf) -> Cvecf {
    vec![1.0 + yn[0] * yn[0]]
}

fn oscillator(_time: f64, yn: &Cvecf) -> Cvecf {
    vec![yn[1], -yn[0]]
}

fn exact_test(t: f64) -> f64 {
    (t / 2.0 - (2.0 * t).sin() / 4.0).exp()
}

fn c(re: f64) -> Complex64 {
    Complex64::new(re, 0.0)
}

#[test]
fn fixed_step_rejects_zero_intervals() {
    let r = rk4_run(diff_equ_test, 0.0, 1.0, 0, &vec![c(1.0)]);
    assert_eq!(r, Err(IntegrationError::ZeroIntervals));
}

#[test]
fn fixed_step_records_one_more_sample_than_intervals() {
    for n in [1usize, 2, 7, 24] {
        let s = rk4_run(diff_equ_test, 0.0, 5.0, n, &vec![c(1.0)]).unwrap();
        assert_eq!(s.len(), n + 1);
        assert_eq!(s[0], vec![c(1.0)]);
        let per_component = component_series(&s, 1);
        assert_eq!(per_component.len(), 1);
        assert_eq!(per_component[0].len(), n + 1);
    }
}

#[test]
fn grid_times_are_uniform() {
    let (t_start, t_end, n) = (1.0f64, 3.0f64, 8usize);
    let h = (t_end - t_start) / n as f64;
    let times = grid_times(n, |i: usize| t_start + i as f64 * h);
    assert_eq!(times.len(), 9);
    for (i, t) in times.iter().enumerate() {
        assert_eq!(*t, t_start + i as f64 * h);
    }
    assert_eq!(times[0], 1.0);
    assert_eq!(times[8], 3.0);
}

#[test]
fn fixed_step_single_interval_records_initial_state_twice_updated_once() {
    // y' = y with one interval: the second sample is one RK4 update of the first.
    let f: Deriv = |_t, y| y.clone();
    let s = rk4_run(f, 0.0, 1.0, 1, &vec![c(1.0)]).unwrap();
    assert_eq!(s.len(), 2);
    assert_eq!(s[0][0], c(1.0));
    assert!((s[1][0].re - (1.0 + 1.0 + 0.5 + 1.0 / 6.0 + 1.0 / 24.0)).abs() < 1e-15);
}

#[test]
fn fixed_step_converges_at_fourth_order() {
    let t_end = 5.0;
    let mut errs = Vec::new();
    for n in [40usize, 80, 160] {
        let s = rk4_run(diff_equ_test, 0.0, t_end, n, &vec![c(1.0)]).unwrap();
        // sample n follows the updates at indices 0 .. n - 1; the one at n is discarded
        errs.push((s[n][0].re - exact_test(t_end)).abs());
    }
    for w in errs.windows(2) {
        let ratio = w[0] / w[1];
        assert!(ratio > 12.0 && ratio < 20.0, "ratio {}", ratio);
    }
}

#[test]
fn harmonic_oscillator_tracks_cosine_and_sine() {
    let n = 1000usize;
    let t_end = std::f64::consts::PI;
    let s = rk4_run(oscillator, 0.0, t_end, n, &vec![c(1.0), c(0.0)]).unwrap();
    let series = component_series(&s, 2);
    let h = t_end / n as f64;
    assert_eq!(series[0].len(), n + 1);
    for i in 0..=n {
        let t = i as f64 * h;
        assert!((series[0][i].re - t.cos()).abs() < 1e-9);
        assert!((series[1][i].re + t.sin()).abs() < 1e-9);
        assert!(series[0][i].im.abs() < 1e-15 && series[1][i].im.abs() < 1e-15);
    }
}

#[test]
fn fixed_step_rejects_a_step_that_changes_dimension() {
    let r = fixed_step_samples(3, &vec![c(1.0)], |_i: usize, y: &Cvecf| {
        let mut v = y.clone();
        v.push(c(0.0));
        v
    });
    assert_eq!(r, Err(IntegrationError::DimensionMismatch));
}

#[test]
fn adaptive_follows_tangent() {
    let out = rkf45_run(diff_equ_test_2, 0.0, 1.0, &vec![c(0.0)]).unwrap();
    let n = out.times.len();
    assert!(n > 10);
    assert_eq!(out.times[0], 0.0);
    assert_eq!(out.states[0], vec![c(0.0)]);
    for k in 0..n {
        assert!((out.states[k][0].re - out.times[k].tan()).abs() < 1e-3);
        assert!(out.errors[k] <= TOL);
        assert!(out.times[k] <= 1.0);
        if k + 1 < n {
            assert!(out.times[k] < out.times[k + 1]);
            assert_eq!(out.times[k + 1], out.times[k] + out.steps[k]);
        }
    }
    assert!(out.final_time > 1.0);
    assert!(out.final_time <= 1.0 + 0.1 + 1e-12);
}

#[test]
fn adaptive_steps_stay_within_bounds() {
    let out = rkf45_run(diff_equ_test, 0.0, 10.0, &vec![c(1.0)]).unwrap();
    let (h_min, h_max) = (10.0 / 1000000000.0, 10.0 / 10.0);
    assert_eq!(out.steps[0], h_min);
    for h in &out.steps {
        assert!(*h >= h_min && *h <= h_max);
    }
    assert!(out.steps.iter().any(|h| *h == h_max));
}

#[test]
fn adaptive_runs_are_deterministic() {
    let a = rkf45_run(diff_equ_test_2, 0.0, 1.0, &vec![c(0.0)]).unwrap();
    let b = rkf45_run(diff_equ_test_2, 0.0, 1.0, &vec![c(0.0)]).unwrap();
    assert_eq!(a.times, b.times);
    assert_eq!(a.states, b.states);
    assert_eq!(a.steps, b.steps);
    assert_eq!(a.errors, b.errors);
    assert_eq!(a.final_time, b.final_time);
}

#[test]
fn fixed_step_runs_are_deterministic() {
    let a = rk4_run(oscillator, 0.0, 2.0, 50, &vec![c(1.0), c(0.0)]).unwrap();
    let b = rk4_run(oscillator, 0.0, 2.0, 50, &vec![c(1.0), c(0.0)]).unwrap();
    assert_eq!(a, b);
}

#[test]
fn adaptive_empty_interval_is_degenerate() {
    let r = rkf45_run(diff_equ_test, 2.0, 2.0, &vec![c(1.0)]);
    assert!(matches!(r, Err(IntegrationError::DegenerateStep)));
}

#[test]
fn adaptive_start_past_end_records_nothing() {
    let out = adaptive_samples(
        &vec![c(1.0)],
        3.0f64,
        0.1,
        0.5,
        10,
        |t: f64| t <= 2.0,
        |t: f64, h: f64, y: &Cvecf| rkf45_trial(diff_equ_test, t, h, y),
        |e: f64| e <= TOL,
        |t: f64, h: f64| t + h,
        |h: f64, e: f64| 0.9 * h * (TOL / e).powf(1.0 / 5.0),
        |a: f64, b: f64| a < b,
        |h: f64| h == 0.0,
    )
    .unwrap();
    assert!(out.times.is_empty() && out.states.is_empty());
    assert_eq!(out.final_time, 3.0);
}

#[test]
fn adaptive_stops_at_iteration_limit() {
    let r = adaptive_samples(
        &vec![c(1.0)],
        0.0f64,
        1e-9,
        0.1,
        3,
        |t: f64| t <= 1.0,
        |t: f64, h: f64, y: &Cvecf| rkf45_trial(diff_equ_test, t, h, y),
        |e: f64| e <= TOL,
        |t: f64, h: f64| t + h,
        |h: f64, e: f64| 0.9 * h * (TOL / e).powf(1.0 / 5.0),
        |a: f64, b: f64| a < b,
        |h: f64| h == 0.0,
    );
    assert!(matches!(r, Err(IntegrationError::IterationLimit)));
}

#[test]
fn adaptive_rejects_a_step_that_changes_dimension() {
    let r = adaptive_samples(
        &vec![c(1.0)],
        0.0f64,
        0.1,
        0.5,
        100,
        |t: f64| t <= 1.0,
        |_t: f64, _h: f64, _y: &Cvecf| (vec![c(1.0), c(2.0)], 0.0),
        |e: f64| e <= TOL,
        |t: f64, h: f64| t + h,
        |h: f64, _e: f64| h,
        |a: f64, b: f64| a < b,
        |h: f64| h == 0.0,
    );
    assert!(matches!(r, Err(IntegrationError::DimensionMismatch)));
}

#[test]
fn adaptive_rejected_steps_leave_state_and_time() {
    // the first trial is rejected, the next ones accepted
    let tries = std::cell::Cell::new(0usize);
    let out = adaptive_samples(
        &vec![c(1.0)],
        0.0f64,
        0.25,
        0.5,
        100,
        |t: f64| t <= 1.0,
        |_t: f64, h: f64, y: &Cvecf| {
            tries.set(tries.get() + 1);
            let err = if tries.get() == 1 { 1.0 } else { 0.0 };
            (vec![y[0] + c(h)], err)
        },
        |e: f64| e <= TOL,
        |t: f64, h: f64| t + h,
        |h: f64, e: f64| if e == 0.0 { f64::INFINITY } else { h / 2.0 },
        |a: f64, b: f64| a < b,
        |h: f64| h == 0.0,
    )
    .unwrap();
    assert_eq!(out.times, vec![0.0, 0.25, 0.75]);
    assert_eq!(out.steps, vec![0.25, 0.5, 0.5]);
    assert_eq!(out.states, vec![vec![c(1.0)], vec![c(1.25)], vec![c(1.75)]]);
    assert_eq!(out.final_time, 1.25);
}

#[test]
fn clamp_step_cases() {
    let less = |a: f64, b: f64| a < b;
    assert_eq!(clamp_step(0.3, 0.1, 0.5, &less), 0.3);
    assert_eq!(clamp_step(0.01, 0.1, 0.5, &less), 0.1);
    assert_eq!(clamp_step(7.0, 0.1, 0.5, &less), 0.5);
    assert_eq!(clamp_step(f64::INFINITY, 0.1, 0.5, &less), 0.5);
    assert_eq!(clamp_step(f64::NAN, 0.1, 0.5, &less), 0.1);
    assert_eq!(clamp_step(0.5, 0.1, 0.5, &less), 0.5);
}

#[test]
fn component_series_transposes() {
    let samples = vec![vec![1u32, 2, 3], vec![4, 5, 6]];
    let r = component_series(&samples, 3);
    assert_eq!(r, vec![vec![1, 4], vec![2, 5], vec![3, 6]]);
    let empty: Vec<Vec<u32>> = Vec::new();
    assert_eq!(component_series(&empty, 2), vec![Vec::<u32>::new(), Vec::new()]);
}

#[test]
fn copy_state_keeps_contents() {
    let v = vec![c(1.0), Complex64::new(-2.0, 3.5)];
    assert_eq!(copy_state(&v), v);
}

#[test]
fn initial_hierarchy_state() {
    let mut v = vec![c(7.0); 15];
    corr_init_vec_ada_order_2__2e_2(&mut v, c(0.0), c(1.0));
    for (j, x) in v.iter().enumerate() {
        let want = if j == 3 || j == 4 { c(1.0) } else if j < 13 { c(0.0) } else { c(7.0) };
        assert_eq!(*x, want);
    }
}

#[test]
fn fixed_step_series_gives_one_series_per_component() {
    let h = std::f64::consts::PI / 1000.0;
    let r = fixed_step_series(1000, &vec![c(1.0), c(0.0)], move |i: usize, y: &Cvecf| {
        rk4_update(oscillator, i as f64 * h, h, y)
    })
    .unwrap();
    assert_eq!(r.len(), 2);
    assert_eq!(r[0].len(), 1001);
    assert_eq!(r[1].len(), 1001);
    assert_eq!(r[0][0], c(1.0));
    assert!((r[0][1000].re + 1.0).abs() < 1e-9);
    let zero = fixed_step_series(0, &vec![c(1.0)], |_i: usize, y: &Cvecf| y.clone());
    assert_eq!(zero, Err(IntegrationError::ZeroIntervals));
}

#[test]
fn adaptive_every_trial_step_within_bounds() {
    let seen = std::cell::RefCell::new(Vec::new());
    let (t_end, h_min, h_max) = (1.0f64, 1.0 / 1000000000.0, 0.1);
    let out = adaptive_samples(
        &vec![c(0.0)],
        0.0f64,
        h_min,
        h_max,
        usize::MAX,
        |t: f64| t <= t_end,
        |t: f64, h: f64, y: &Cvecf| {
            seen.borrow_mut().push(h);
            rkf45_trial(diff_equ_test_2, t, h, y)
        },
        |e: f64| e <= 1e-9,
        |t: f64, h: f64| t + h,
        |h: f64, e: f64| 0.9 * h * (1e-9 / e).powf(1.0 / 5.0),
        |a: f64, b: f64| a < b,
        |h: f64| h == 0.0,
    )
    .unwrap();
    let seen = seen.borrow();
    assert_eq!(seen[0], h_min);
    assert!(seen.len() > out.times.len(), "some trials are rejected");
    for h in seen.iter() {
        assert!(*h >= h_min && *h <= h_max);
    }
}
