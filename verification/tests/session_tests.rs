use sequential_line_search::errors::SlsError;
use sequential_line_search::fixed::SCALE;
use sequential_line_search::session::SLSFramework;

/// The canonical usage loop: steer the session toward a fixed target by
/// always reporting the slider position closest to the target.
#[test]
fn test_point() {
    let target: Vec<i64> = vec![100_000, 200_000, 300_000, 400_000, 500_000];

    let dims: usize = target.len();

    let mut sls = SLSFramework::new(dims);
    for _it in 0..10 {
        let a: Vec<i64> = sls.get_parameters_from_slider(0).unwrap();
        let b: Vec<i64> = sls.get_parameters_from_slider(SCALE).unwrap();

        // Get closest point to `target` along slider

        // proj = <target-a, b-a>
        // pl   = <b-a, b-a> = |b-a|^2
        let mut proj: i128 = 0;
        let mut pl: i128 = 0;
        for i in 0..dims {
            let d: i128 = (b[i] - a[i]) as i128;
            let t: i128 = (target[i] - a[i]) as i128;
            proj += d * t;
            pl += d * d;
        }

        let x: i64 = if pl == 0 {
            0
        } else {
            let scaled: i128 = proj * (SCALE as i128) / pl;
            if scaled < 0 {
                0
            } else if scaled > SCALE as i128 {
                SCALE
            } else {
                scaled as i64
            }
        };

        sls.proceed_optimization(x).unwrap();
    }
    let result: Vec<i64> = sls.get_x_max().unwrap();
    assert_eq!(result.len(), dims);
}

/// A fresh session's two slider ends are distinct and the midpoint query is
/// the exact floor midpoint of the end queries.
#[test]
fn round_zero_endpoints_and_midpoint() {
    for dims in [1usize, 2, 5, 9] {
        let sls = SLSFramework::new(dims);
        let a: Vec<i64> = sls.get_parameters_from_slider(0).unwrap();
        let b: Vec<i64> = sls.get_parameters_from_slider(SCALE).unwrap();
        assert_eq!(a.len(), dims);
        assert_eq!(b.len(), dims);
        assert_ne!(a, b);
        let mid: Vec<i64> = sls.get_parameters_from_slider(SCALE / 2).unwrap();
        for i in 0..dims {
            assert_eq!(mid[i], (a[i] + b[i]) / 2);
            assert!(0 <= a[i] && a[i] <= SCALE);
            assert!(0 <= b[i] && b[i] <= SCALE);
        }
    }
}

/// The interpolation law: the slider query equals
/// `a * (1 - v) + b * v` coordinate by coordinate, in fixed point.
#[test]
fn interpolation_law() {
    let sls = SLSFramework::new(4);
    let a: Vec<i64> = sls.get_parameters_from_slider(0).unwrap();
    let b: Vec<i64> = sls.get_parameters_from_slider(SCALE).unwrap();
    for v in [0i64, 1, 137, 250_000, 499_999, 500_000, 730_001, 999_999, 1_000_000] {
        let q: Vec<i64> = sls.get_parameters_from_slider(v).unwrap();
        for i in 0..4 {
            let expect: i128 =
                ((a[i] as i128) * ((SCALE - v) as i128) + (b[i] as i128) * (v as i128))
                    / (SCALE as i128);
            assert_eq!(q[i] as i128, expect);
        }
    }
}

/// Before any round the best point is undefined; after one report at slider
/// value 1.0 the best point is exactly the point queried there.
#[test]
fn round_zero_best_point() {
    let mut sls = SLSFramework::new(5);
    assert!(matches!(sls.get_x_max(), Err(SlsError::UndefinedBestPoint)));
    let queried: Vec<i64> = sls.get_parameters_from_slider(SCALE).unwrap();
    sls.proceed_optimization(SCALE).unwrap();
    let best: Vec<i64> = sls.get_x_max().unwrap();
    assert_eq!(best.len(), 5);
    assert_eq!(best, queried);
}

/// Out-of-range slider reports fail with `OutOfRangeInput` and leave the
/// dataset and the slider unchanged.
#[test]
fn out_of_range_reports_rejected() {
    let mut sls = SLSFramework::new(3);
    let before_a: Vec<i64> = sls.get_parameters_from_slider(0).unwrap();
    let before_b: Vec<i64> = sls.get_parameters_from_slider(SCALE).unwrap();

    let low: i64 = -100_000; // -0.1
    let high: i64 = SCALE + 100_000; // 1.1
    assert!(matches!(
        sls.proceed_optimization(low),
        Err(SlsError::OutOfRangeInput)
    ));
    assert!(matches!(
        sls.proceed_optimization(high),
        Err(SlsError::OutOfRangeInput)
    ));

    assert_eq!(sls.dataset.n_points(), 0);
    assert_eq!(sls.dataset.n_constraints(), 0);
    assert_eq!(sls.get_parameters_from_slider(0).unwrap(), before_a);
    assert_eq!(sls.get_parameters_from_slider(SCALE).unwrap(), before_b);
    assert!(matches!(
        sls.get_parameters_from_slider(high),
        Err(SlsError::OutOfRangeInput)
    ));
}

/// After N reports the dataset holds exactly N constraints and between 1 and
/// 3N points, and the point count never shrinks.
#[test]
fn dataset_growth() {
    let mut sls = SLSFramework::new(2);
    let mut last_points: usize = 0;
    let reports: [i64; 5] = [0, SCALE, 500_000, 250_000, 1_000_000];
    for (n, v) in reports.iter().enumerate() {
        sls.proceed_optimization(*v).unwrap();
        let n_pts: usize = sls.dataset.n_points();
        assert_eq!(sls.dataset.n_constraints(), n + 1);
        assert!(n_pts >= last_points);
        assert!(n_pts >= 1 && n_pts <= 3 * (n + 1));
        last_points = n_pts;
    }
}

/// Feeding reports that favor points closer to a fixed target drives the
/// best-known point closer to the target over the rounds.
#[test]
fn convergence_toward_target() {
    let target: Vec<i64> = vec![300_000, 700_000, 500_000];
    let dims: usize = target.len();

    let dist2 = |p: &Vec<i64>| -> i128 {
        let mut acc: i128 = 0;
        for i in 0..dims {
            let d: i128 = (p[i] - target[i]) as i128;
            acc += d * d;
        }
        acc
    };

    let mut sls = SLSFramework::new_with_seed(dims, 42);
    let mut first_dist: Option<i128> = None;
    for _round in 0..25 {
        let a: Vec<i64> = sls.get_parameters_from_slider(0).unwrap();
        let b: Vec<i64> = sls.get_parameters_from_slider(SCALE).unwrap();
        let mut proj: i128 = 0;
        let mut pl: i128 = 0;
        for i in 0..dims {
            let d: i128 = (b[i] - a[i]) as i128;
            let t: i128 = (target[i] - a[i]) as i128;
            proj += d * t;
            pl += d * d;
        }
        let x: i64 = if pl == 0 {
            0
        } else {
            let scaled: i128 = proj * (SCALE as i128) / pl;
            scaled.clamp(0, SCALE as i128) as i64
        };
        sls.proceed_optimization(x).unwrap();
        if first_dist.is_none() {
            first_dist = Some(dist2(&sls.get_x_max().unwrap()));
        }
    }
    let final_dist: i128 = dist2(&sls.get_x_max().unwrap());
    assert!(final_dist < first_dist.unwrap());
}

/// Two sessions with the same seed and the same reports evolve identically.
#[test]
fn equal_seeds_equal_sessions() {
    let mut s1 = SLSFramework::new_with_seed(4, 2024);
    let mut s2 = SLSFramework::new_with_seed(4, 2024);
    let reports: [i64; 4] = [0, 1_000_000, 333_333, 750_000];
    for v in reports {
        let r1 = s1.proceed_optimization(v).unwrap();
        let r2 = s2.proceed_optimization(v).unwrap();
        assert_eq!(r1, r2);
        assert_eq!(
            s1.get_parameters_from_slider(0).unwrap(),
            s2.get_parameters_from_slider(0).unwrap()
        );
        assert_eq!(
            s1.get_parameters_from_slider(SCALE).unwrap(),
            s2.get_parameters_from_slider(SCALE).unwrap()
        );
        assert_eq!(s1.get_x_max().is_ok(), s2.get_x_max().is_ok());
        if s1.get_x_max().is_ok() {
            assert_eq!(s1.get_x_max().unwrap(), s2.get_x_max().unwrap());
        }
    }
}
