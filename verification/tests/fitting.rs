use demand_curve_ui::fit::{fit_demand_curve_inputs_into_datetime_range, DemandCurveInput};
use demand_curve_ui::timestamp::Timestamp;

fn at(seconds: i64) -> Timestamp {
    Timestamp { seconds, nanos: 0 }
}

fn input(seconds: i64, value: f64) -> DemandCurveInput<f64> {
    DemandCurveInput { timestamp: at(seconds), value }
}

fn pairs(v: &[DemandCurveInput<f64>]) -> Vec<(i64, u32, f64)> {
    v.iter().map(|d| (d.timestamp.seconds, d.timestamp.nanos, d.value)).collect()
}

#[test]
fn fit_empty_inputs_stay_empty() {
    let res = fit_demand_curve_inputs_into_datetime_range(at(0), at(100), Vec::<DemandCurveInput<f64>>::new());
    assert!(res.is_empty());
}

#[test]
fn fit_keeps_inputs_in_window_and_fills_the_start() {
    let inputs = vec![input(-50, 1.0), input(-10, 2.0), input(10, 3.0), input(60, 4.0), input(100, 5.0), input(200, 6.0)];
    let res = fit_demand_curve_inputs_into_datetime_range(at(0), at(100), inputs);
    assert_eq!(pairs(&res), vec![(0, 0, 2.0), (10, 0, 3.0), (60, 0, 4.0)]);
}

#[test]
fn fit_does_not_fill_when_an_input_lies_at_the_start() {
    let inputs = vec![input(-10, 2.0), input(0, 7.0), input(10, 3.0)];
    let res = fit_demand_curve_inputs_into_datetime_range(at(0), at(100), inputs);
    assert_eq!(pairs(&res), vec![(0, 0, 7.0), (10, 0, 3.0)]);
}

#[test]
fn fit_fills_an_empty_window_with_the_last_earlier_value() {
    let inputs = vec![input(-30, 1.0), input(-20, 2.0), input(150, 9.0)];
    let res = fit_demand_curve_inputs_into_datetime_range(at(0), at(100), inputs);
    assert_eq!(pairs(&res), vec![(0, 0, 2.0)]);
}

#[test]
fn fit_takes_the_last_earlier_value_in_the_order_given() {
    let inputs = vec![input(-5, 1.0), input(-50, 2.0), input(20, 3.0)];
    let res = fit_demand_curve_inputs_into_datetime_range(at(0), at(100), inputs);
    assert_eq!(pairs(&res), vec![(0, 0, 2.0), (20, 0, 3.0)]);
}

#[test]
fn fit_without_earlier_inputs_keeps_only_the_window() {
    let inputs = vec![input(20, 3.0), input(5, 1.0), input(120, 4.0)];
    let res = fit_demand_curve_inputs_into_datetime_range(at(0), at(100), inputs);
    assert_eq!(pairs(&res), vec![(20, 0, 3.0), (5, 0, 1.0)]);
}

#[test]
fn fit_excludes_the_window_end() {
    let inputs = vec![input(99, 1.0), input(100, 2.0)];
    let res = fit_demand_curve_inputs_into_datetime_range(at(0), at(100), inputs);
    assert_eq!(pairs(&res), vec![(99, 0, 1.0)]);
}

#[test]
fn fit_orders_by_nanoseconds_within_a_second() {
    let from = Timestamp { seconds: 10, nanos: 500 };
    let inputs = vec![
        DemandCurveInput { timestamp: Timestamp { seconds: 10, nanos: 499 }, value: 1.0 },
        DemandCurveInput { timestamp: Timestamp { seconds: 10, nanos: 501 }, value: 2.0 },
    ];
    let res = fit_demand_curve_inputs_into_datetime_range(from, at(11), inputs);
    assert_eq!(pairs(&res), vec![(10, 500, 1.0), (10, 501, 2.0)]);
}

#[test]
fn fit_with_an_empty_window_keeps_at_most_the_start() {
    let inputs = vec![input(-10, 2.0), input(0, 7.0), input(10, 3.0)];
    let res = fit_demand_curve_inputs_into_datetime_range(at(0), at(0), inputs);
    assert_eq!(pairs(&res), vec![(0, 0, 2.0)]);
}

#[test]
fn fit_twice_changes_nothing() {
    let inputs = vec![input(-50, 1.0), input(-10, 2.0), input(10, 3.0), input(60, 4.0), input(200, 6.0)];
    let once = fit_demand_curve_inputs_into_datetime_range(at(0), at(100), inputs);
    let twice = fit_demand_curve_inputs_into_datetime_range(at(0), at(100), once.clone());
    assert_eq!(pairs(&once), pairs(&twice));
}

#[test]
fn fit_keeps_chronological_inputs_in_order_and_starts_at_from() {
    let inputs = vec![input(-50, 1.0), input(-10, 2.0), input(10, 3.0), input(60, 4.0), input(200, 6.0)];
    let res = fit_demand_curve_inputs_into_datetime_range(at(0), at(100), inputs);
    assert_eq!(res[0].timestamp, at(0));
    for w in res.windows(2) {
        assert!(!w[1].timestamp.is_before(&w[0].timestamp));
    }
    for d in &res {
        assert!(!d.timestamp.is_before(&at(0)) && d.timestamp.is_before(&at(100)));
    }
}
