use linux_fan_utility::curve::{
    default_performance_curve, default_silent_curve, find_curve, sort_points, CurvePoint,
    FanCurve,
};

fn millidegrees(celsius: f64) -> i64 {
    (celsius * 1000.0).round() as i64
}

fn point(celsius: f64, pwm: u8) -> CurvePoint {
    CurvePoint { temp_mc: millidegrees(celsius), pwm }
}

fn curve(points: Vec<CurvePoint>) -> FanCurve {
    FanCurve::new("test".to_string(), points)
}

#[test]
fn test_interpolation_below_range() {
    let curve = default_silent_curve();
    assert_eq!(curve.interpolate(millidegrees(10.0)), 0);
}

#[test]
fn test_interpolation_above_range() {
    let curve = default_silent_curve();
    assert_eq!(curve.interpolate(millidegrees(100.0)), 255);
}

#[test]
fn test_interpolation_exact_point() {
    let curve = default_silent_curve();
    assert_eq!(curve.interpolate(millidegrees(50.0)), 64);
}

#[test]
fn test_interpolation_midpoint() {
    let curve = FanCurve::new("test".to_string(), vec![point(0.0, 0), point(100.0, 200)]);
    assert_eq!(curve.interpolate(millidegrees(50.0)), 100);
}

#[test]
fn test_validation_too_few_points() {
    let curve = FanCurve::new("bad".to_string(), vec![point(50.0, 128)]);
    assert!(curve.validate().is_err());
}

#[test]
fn default_curves_hold_their_points() {
    let silent = default_silent_curve();
    assert_eq!(silent.name, "silent");
    assert_eq!(
        silent.points,
        vec![point(30.0, 0), point(50.0, 64), point(70.0, 153), point(80.0, 204), point(90.0, 255)]
    );
    assert_eq!(silent.validate(), Ok(()));
    let performance = default_performance_curve();
    assert_eq!(performance.name, "performance");
    assert_eq!(
        performance.points,
        vec![point(30.0, 64), point(50.0, 128), point(65.0, 204), point(75.0, 255)]
    );
    assert_eq!(performance.validate(), Ok(()));
}

#[test]
fn interpolation_of_no_points_is_zero() {
    assert_eq!(curve(vec![]).interpolate(50_000), 0);
    assert_eq!(curve(vec![]).interpolate(i64::MIN), 0);
}

#[test]
fn interpolation_of_one_point_is_its_duty() {
    let single = curve(vec![point(50.0, 128)]);
    assert_eq!(single.interpolate(0), 128);
    assert_eq!(single.interpolate(50_000), 128);
    assert_eq!(single.interpolate(99_000), 128);
}

#[test]
fn interpolation_returns_each_point_at_its_temperature() {
    let silent = default_silent_curve();
    for p in silent.points.iter() {
        assert_eq!(silent.interpolate(p.temp_mc), p.pwm);
    }
}

#[test]
fn interpolation_outside_the_curve_does_not_extrapolate() {
    let silent = default_silent_curve();
    assert_eq!(silent.interpolate(30_000), 0);
    assert_eq!(silent.interpolate(29_999), 0);
    assert_eq!(silent.interpolate(i64::MIN), 0);
    assert_eq!(silent.interpolate(90_000), 255);
    assert_eq!(silent.interpolate(90_001), 255);
    assert_eq!(silent.interpolate(i64::MAX), 255);
    let performance = default_performance_curve();
    assert_eq!(performance.interpolate(-40_000), 64);
    assert_eq!(performance.interpolate(120_000), 255);
}

#[test]
fn interpolation_rounds_to_nearest() {
    // 10 duty steps over 3 degrees: 3.33, 6.67 per degree.
    let c = curve(vec![point(0.0, 0), point(3.0, 10)]);
    assert_eq!(c.interpolate(1_000), 3);
    assert_eq!(c.interpolate(2_000), 7);
    // Exactly half way between two duties rounds up.
    let half = curve(vec![point(0.0, 0), point(2.0, 1)]);
    assert_eq!(half.interpolate(999), 0);
    assert_eq!(half.interpolate(1_000), 1);
    let silent = default_silent_curve();
    // 64 + (60 - 50) / (70 - 50) * (153 - 64) = 108.5
    assert_eq!(silent.interpolate(60_000), 109);
    // 0 + (40 - 30) / (50 - 30) * 64 = 32
    assert_eq!(silent.interpolate(40_000), 32);
    // 204 + (85 - 80) / (90 - 80) * 51 = 229.5
    assert_eq!(silent.interpolate(85_000), 230);
    // 153 + (72.5 - 70) / 10 * 51 = 165.75
    assert_eq!(silent.interpolate(72_500), 166);
}

#[test]
fn interpolation_follows_a_falling_segment() {
    let c = curve(vec![point(0.0, 200), point(100.0, 0)]);
    assert_eq!(c.interpolate(0), 200);
    assert_eq!(c.interpolate(25_000), 150);
    assert_eq!(c.interpolate(50_000), 100);
    assert_eq!(c.interpolate(99_999), 0);
    assert_eq!(c.interpolate(100_000), 0);
    let fine = curve(vec![point(0.0, 3), point(0.004, 0)]);
    assert_eq!(fine.interpolate(1), 2);
    assert_eq!(fine.interpolate(2), 2);
    assert_eq!(fine.interpolate(3), 1);
}

#[test]
fn interpolation_is_monotonic_on_rising_curves() {
    for c in [default_silent_curve(), default_performance_curve()] {
        let mut last = 0u8;
        let mut t = 20_000i64;
        while t <= 100_000 {
            let duty = c.interpolate(t);
            assert!(duty >= last, "duty fell at {t}");
            last = duty;
            t += 37;
        }
    }
}

#[test]
fn interpolation_handles_extreme_temperatures() {
    let c = curve(vec![
        CurvePoint { temp_mc: i64::MIN, pwm: 0 },
        CurvePoint { temp_mc: i64::MAX, pwm: 255 },
    ]);
    assert_eq!(c.interpolate(i64::MIN), 0);
    assert_eq!(c.interpolate(i64::MAX), 255);
    assert_eq!(c.interpolate(0), 128);
    assert_eq!(c.interpolate(-1), 127);
}

#[test]
fn interpolation_of_unordered_points_uses_the_first_bracket() {
    let c = FanCurve {
        name: "raw".to_string(),
        points: vec![point(10.0, 10), point(5.0, 20), point(30.0, 40), point(20.0, 50)],
    };
    // (10, 5) does not bracket 11 degrees; (5, 30) does: 20 + 6 / 25 * 20 = 24.8
    assert_eq!(c.interpolate(11_000), 25);
    // Above 20 degrees, the last point, the last duty is returned.
    assert_eq!(c.interpolate(25_000), 50);
    // Below the first point.
    assert_eq!(c.interpolate(7_000), 10);
    let none = FanCurve {
        name: "raw".to_string(),
        points: vec![point(10.0, 10), point(5.0, 20), point(40.0, 30)],
    };
    // 20 + (20 - 5) / (40 - 5) * 10 = 24.29
    assert_eq!(none.interpolate(20_000), 24);
    let falling = FanCurve {
        name: "raw".to_string(),
        points: vec![point(10.0, 10), point(5.0, 20), point(3.0, 30), point(50.0, 77)],
    };
    assert_eq!(falling.interpolate(50_000), 77);
    let unbracketed = FanCurve {
        name: "raw".to_string(),
        points: vec![point(10.0, 10), point(5.0, 20), point(60.0, 30), point(50.0, 77)],
    };
    assert_eq!(unbracketed.interpolate(49_000), 28);
}

#[test]
fn new_sorts_points_by_temperature() {
    let c = curve(vec![point(70.0, 3), point(30.0, 1), point(90.0, 4), point(50.0, 2)]);
    assert_eq!(c.name, "test");
    assert_eq!(c.points, vec![point(30.0, 1), point(50.0, 2), point(70.0, 3), point(90.0, 4)]);
}

#[test]
fn new_keeps_the_order_of_equal_temperatures() {
    let c = curve(vec![point(50.0, 9), point(30.0, 1), point(50.0, 2), point(30.0, 7), point(50.0, 5)]);
    assert_eq!(
        c.points,
        vec![point(30.0, 1), point(30.0, 7), point(50.0, 9), point(50.0, 2), point(50.0, 5)]
    );
}

#[test]
fn new_agrees_with_a_stable_sort() {
    let mut seed = 12345u64;
    for len in 0..40usize {
        let mut points = Vec::new();
        for _ in 0..len {
            seed = seed.wrapping_mul(6364136223846793005).wrapping_add(1442695040888963407);
            let temp = ((seed >> 33) % 7) as i64 * 1000;
            let pwm = (seed >> 20) as u8;
            points.push(CurvePoint { temp_mc: temp, pwm });
        }
        let mut expected = points.clone();
        expected.sort_by(|a, b| a.temp_mc.cmp(&b.temp_mc));
        assert_eq!(curve(points).points, expected);
    }
}

#[test]
fn validate_accepts_strictly_increasing_points() {
    assert_eq!(curve(vec![point(0.0, 0), point(0.001, 0)]).validate(), Ok(()));
    assert_eq!(curve(vec![point(30.0, 255), point(40.0, 0), point(50.0, 7)]).validate(), Ok(()));
}

#[test]
fn validate_rejects_fewer_than_two_points() {
    assert_eq!(curve(vec![]).validate(), Err("Curve must have at least 2 points".to_string()));
    assert_eq!(
        curve(vec![point(50.0, 128)]).validate(),
        Err("Curve must have at least 2 points".to_string())
    );
}

#[test]
fn validate_rejects_equal_temperatures() {
    assert_eq!(
        curve(vec![point(30.0, 0), point(30.0, 10)]).validate(),
        Err("Points must have strictly increasing temperatures (point 1)".to_string())
    );
    assert_eq!(
        curve(vec![point(10.0, 0), point(50.0, 10), point(30.0, 5), point(50.0, 20), point(30.0, 6)])
            .validate(),
        Err("Points must have strictly increasing temperatures (point 2)".to_string())
    );
    assert_eq!(
        curve(vec![point(10.0, 0), point(20.0, 10), point(30.0, 5), point(30.0, 20)]).validate(),
        Err("Points must have strictly increasing temperatures (point 3)".to_string())
    );
}

#[test]
fn validate_names_the_first_point_that_does_not_rise() {
    let mut points = Vec::new();
    for i in 0..12 {
        points.push(CurvePoint { temp_mc: i * 1000, pwm: 0 });
    }
    points.push(CurvePoint { temp_mc: 11_000, pwm: 9 });
    points.push(CurvePoint { temp_mc: 11_000, pwm: 9 });
    let c = FanCurve { name: "raw".to_string(), points };
    assert_eq!(
        c.validate(),
        Err("Points must have strictly increasing temperatures (point 12)".to_string())
    );
}

#[test]
fn validate_takes_the_points_in_ascending_order() {
    let unordered = FanCurve {
        name: "u".to_string(),
        points: vec![point(50.0, 10), point(30.0, 5)],
    };
    assert_eq!(unordered.validate(), Ok(()));
    assert_eq!(unordered.points, vec![point(50.0, 10), point(30.0, 5)]);
    let falling = FanCurve {
        name: "raw".to_string(),
        points: vec![point(90.0, 4), point(70.0, 3), point(50.0, 2), point(30.0, 1)],
    };
    assert_eq!(falling.validate(), Ok(()));
    let tie_at_the_bottom = FanCurve {
        name: "raw".to_string(),
        points: vec![point(50.0, 10), point(30.0, 5), point(30.0, 6)],
    };
    assert_eq!(
        tie_at_the_bottom.validate(),
        Err("Points must have strictly increasing temperatures (point 1)".to_string())
    );
    let tie_at_the_top = FanCurve {
        name: "raw".to_string(),
        points: vec![point(50.0, 10), point(30.0, 5), point(50.0, 6)],
    };
    assert_eq!(
        tie_at_the_top.validate(),
        Err("Points must have strictly increasing temperatures (point 2)".to_string())
    );
    let single = FanCurve { name: "raw".to_string(), points: vec![point(50.0, 10)] };
    assert_eq!(single.validate(), Err("Curve must have at least 2 points".to_string()));
}

#[test]
fn validate_agrees_with_distinct_temperatures() {
    let mut seed = 7u64;
    for len in 0..12usize {
        for _ in 0..40 {
            let mut points = Vec::new();
            for _ in 0..len {
                seed = seed.wrapping_mul(6364136223846793005).wrapping_add(1442695040888963407);
                points.push(CurvePoint { temp_mc: ((seed >> 33) % 20) as i64, pwm: (seed >> 20) as u8 });
            }
            let mut temps: Vec<i64> = points.iter().map(|p| p.temp_mc).collect();
            temps.sort();
            temps.dedup();
            let expected = len >= 2 && temps.len() == len;
            let stored = FanCurve { name: "raw".to_string(), points: points.clone() };
            assert_eq!(stored.validate().is_ok(), expected);
            assert_eq!(curve(points).validate().is_ok(), expected);
        }
    }
}

#[test]
fn clone_copies_name_and_points() {
    let silent = default_silent_curve();
    let copy = silent.clone();
    assert_eq!(copy, silent);
}

#[test]
fn find_curve_gives_the_first_of_a_name() {
    let curves = vec![
        default_silent_curve(),
        default_performance_curve(),
        FanCurve::new("silent".to_string(), vec![]),
    ];
    assert_eq!(find_curve(&curves, &"silent".to_string()), Some(0));
    assert_eq!(find_curve(&curves, &"performance".to_string()), Some(1));
    assert_eq!(find_curve(&curves, &"Silent".to_string()), None);
    assert_eq!(find_curve(&Vec::new(), &"silent".to_string()), None);
}

#[test]
fn sort_points_orders_a_copy() {
    let stored = vec![point(70.0, 3), point(30.0, 1), point(70.0, 9), point(50.0, 2)];
    assert_eq!(
        sort_points(&stored),
        vec![point(30.0, 1), point(50.0, 2), point(70.0, 3), point(70.0, 9)]
    );
    assert_eq!(stored[0], point(70.0, 3));
    assert_eq!(sort_points(&Vec::new()), Vec::<CurvePoint>::new());
}
