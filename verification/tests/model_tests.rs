use sequential_line_search::acquisition::{acq_value, isqrt, next_point};
use sequential_line_search::dataset::Dataset;
use sequential_line_search::errors::{FitStatus, SlsError};
use sequential_line_search::fixed::SCALE;
use sequential_line_search::kernel::{cov, Hyperparameters};
use sequential_line_search::regressor::RegressorState;
use sequential_line_search::rng::Lcg;
use sequential_line_search::session::SLSFramework;

fn hyp() -> Hyperparameters {
    Hyperparameters {
        length_scale: 500_000,
        signal_var: SCALE,
        slip: 100_000,
    }
}

#[test]
fn covariance_values() {
    let h = hyp();
    let p: Vec<i64> = vec![100_000, 900_000];
    let q: Vec<i64> = vec![400_000, 100_000];
    let same: i64 = cov(&p, &p, 2, &h);
    assert_eq!(same, h.signal_var);
    let near: i64 = cov(&p, &q, 2, &h);
    let far: Vec<i64> = vec![1_000_000, 0];
    let further: i64 = cov(&p, &far, 2, &h);
    assert!(0 < near && near < same);
    assert!(0 <= further && further < near);
    // symmetry
    assert_eq!(near, cov(&q, &p, 2, &h));
    // exact value: squared distance 0.73, length scale 0.5:
    // 1 / (1 + 0.73 / 0.5) = 1 / 2.46
    let expect: i64 = (SCALE as i128 * SCALE as i128 / 2_460_000) as i64;
    assert_eq!(near, expect);
}

#[test]
fn isqrt_values() {
    assert_eq!(isqrt(0), 0);
    assert_eq!(isqrt(1), 1);
    assert_eq!(isqrt(15), 3);
    assert_eq!(isqrt(16), 4);
    assert_eq!(isqrt(999_999), 999);
    assert_eq!(isqrt(1_000_000_000_000), 1_000_000);
    assert_eq!(isqrt(u64::MAX), 4_294_967_295);
}

#[test]
fn rng_deterministic_and_in_range() {
    let mut g1 = Lcg::new(7);
    let mut g2 = Lcg::new(7);
    let a: Vec<i64> = g1.next_point(6);
    let b: Vec<i64> = g2.next_point(6);
    assert_eq!(a, b);
    for c in &a {
        assert!(0 <= *c && *c <= SCALE);
    }
    let mut g3 = Lcg::new(8);
    let c: Vec<i64> = g3.next_point(6);
    assert_ne!(a, c);
}

#[test]
fn dimension_mismatch_rejected() {
    let mut ds = Dataset::new(3);
    let good: Vec<i64> = vec![0, 0, 0];
    let bad: Vec<i64> = vec![0, 0];
    let r = ds.add_constraint(&good, &bad, &good);
    assert!(matches!(r, Err(SlsError::DimensionMismatch)));
    assert_eq!(ds.n_points(), 0);
    assert_eq!(ds.n_constraints(), 0);
    assert!(ds.add_constraint(&good, &good, &good).is_ok());
    assert_eq!(ds.n_points(), 1);
    assert_eq!(ds.n_constraints(), 1);
}

#[test]
fn fit_on_one_round_prefers_winner() {
    let mut ds = Dataset::new(2);
    let a: Vec<i64> = vec![500_000, 500_000];
    let b: Vec<i64> = vec![0, 0];
    let c: Vec<i64> = vec![1_000_000, 1_000_000];
    ds.add_constraint(&a, &b, &c).unwrap();
    let st = RegressorState::fit(&ds).unwrap();
    let best: usize = st.arg_max_latent();
    assert_eq!(best, 0);
    assert!(st.latents[0] > st.latents[1]);
    assert!(st.latents[0] > st.latents[2]);
}

#[test]
fn prediction_is_idempotent() {
    let mut sls = SLSFramework::new_with_seed(3, 11);
    sls.proceed_optimization(300_000).unwrap();
    sls.proceed_optimization(800_000).unwrap();
    let st = sls.regressor.as_ref().unwrap();
    let x: Vec<i64> = vec![250_000, 750_000, 10_000];
    let m1: i64 = st.predict_mean(&x);
    let m2: i64 = st.predict_mean(&x);
    assert_eq!(m1, m2);
    let v1: i64 = st.predict_variance(&x);
    let v2: i64 = st.predict_variance(&x);
    assert_eq!(v1, v2);
    assert!(0 <= v1 && v1 <= st.hyp.signal_var);
}

#[test]
fn cyclic_preferences_do_not_converge() {
    let mut ds = Dataset::new(1);
    let a: Vec<i64> = vec![200_000];
    let b: Vec<i64> = vec![800_000];
    ds.add_constraint(&a, &b, &b).unwrap();
    ds.add_constraint(&b, &a, &a).unwrap();
    let r = RegressorState::fit(&ds);
    assert!(matches!(r, Err(FitStatus::RegressionDidNotConverge)));
}

#[test]
fn clustered_chain_is_ill_conditioned() {
    // Eighty nearly identical points with a forced latent staircase: the
    // Gram matrix is essentially rank one, so no jitter up to the ceiling
    // lets the bounded solve reach tolerance.
    let mut ds = Dataset::new(1);
    for k in 0..80i64 {
        let w: Vec<i64> = vec![k + 1];
        let l: Vec<i64> = vec![k];
        ds.add_constraint(&w, &l, &l).unwrap();
    }
    let r = RegressorState::fit(&ds);
    assert!(matches!(r, Err(FitStatus::IllConditionedCovariance)));
}

#[test]
fn acquisition_proposal_in_bounds_and_no_worse() {
    let mut sls = SLSFramework::new_with_seed(2, 5);
    sls.proceed_optimization(600_000).unwrap();
    let st = sls.regressor.as_ref().unwrap();
    let mut gen = Lcg::new(99);
    let proposal: Vec<i64> = next_point(st, &mut gen);
    assert_eq!(proposal.len(), 2);
    for c in &proposal {
        assert!(0 <= *c && *c <= SCALE);
    }
    let best_idx: usize = st.arg_max_latent();
    let best: Vec<i64> = st.pts[best_idx].clone();
    assert!(acq_value(st, &proposal) >= acq_value(st, &best));
}

#[test]
fn failed_fit_keeps_session_usable() {
    // Drive a session into repeated reports at the same end: the dataset
    // still grows by one constraint per report and queries keep working.
    let mut sls = SLSFramework::new_with_seed(2, 3);
    for _ in 0..4 {
        let r = sls.proceed_optimization(0);
        assert!(r.is_ok());
    }
    assert_eq!(sls.dataset.n_constraints(), 4);
    let q: Vec<i64> = sls.get_parameters_from_slider(123_456).unwrap();
    assert_eq!(q.len(), 2);
}
