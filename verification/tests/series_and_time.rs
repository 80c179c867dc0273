use demand_curve_ui::fit::DemandCurveInput;
use demand_curve_ui::series::{
    demand_curve_data_points, demand_curve_points, demand_curve_time_series_chart, sample_demand_series,
    step_line_points,
};
use demand_curve_ui::timestamp::Timestamp;

fn at(seconds: i64) -> Timestamp {
    Timestamp { seconds, nanos: 0 }
}

#[test]
fn step_line_of_no_steps_is_empty() {
    let steps: Vec<(i32, i32)> = Vec::new();
    assert!(step_line_points(&steps, 5).is_empty());
}

#[test]
fn step_line_of_one_step_runs_to_the_end() {
    assert_eq!(step_line_points(&vec![(1, 4)], 9), vec![(1, 4), (9, 4)]);
}

#[test]
fn step_line_has_corners_between_steps() {
    let res = step_line_points(&vec![(0, 1), (2, 3), (5, 0)], 6);
    assert_eq!(res, vec![(0, 1), (2, 1), (2, 3), (5, 3), (5, 0), (6, 0)]);
    for w in res.windows(2) {
        assert!(w[0].0 == w[1].0 || w[0].1 == w[1].1);
    }
}

#[test]
fn demo_demand_curve_points() {
    assert_eq!(
        demand_curve_points(),
        vec![(-1, 0), (1, 0), (1, 5), (5, 5), (5, 3), (7, 3), (7, 0), (8, 0)]
    );
}

#[test]
fn data_points_of_a_fitted_curve() {
    let fitted = vec![
        DemandCurveInput { timestamp: at(0), value: 2.5 },
        DemandCurveInput { timestamp: at(10), value: -1.0 },
    ];
    let res = demand_curve_data_points(&fitted, at(30));
    assert_eq!(res, vec![(at(0), 2.5), (at(10), 2.5), (at(10), -1.0), (at(30), -1.0)]);
}

#[test]
fn time_series_chart_fits_and_extends_the_axis() {
    let inputs = vec![
        DemandCurveInput { timestamp: at(-100), value: 1.0 },
        DemandCurveInput { timestamp: at(600), value: 3.0 },
        DemandCurveInput { timestamp: at(5000), value: 9.0 },
    ];
    let chart = demand_curve_time_series_chart(at(0), at(3600), inputs).unwrap();
    assert_eq!(chart.axis_end, at(3660));
    assert_eq!(chart.points, vec![(at(0), 1.0), (at(600), 1.0), (at(600), 3.0), (at(3600), 3.0)]);
}

#[test]
fn time_series_chart_without_earlier_or_inner_inputs_draws_no_line() {
    let inputs = vec![DemandCurveInput { timestamp: at(5000), value: 9.0 }];
    let chart = demand_curve_time_series_chart(at(0), at(3600), inputs).unwrap();
    assert!(chart.points.is_empty());
}

#[test]
fn sample_series_starts_at_noon_and_lasts_an_hour() {
    let s = sample_demand_series().unwrap();
    let start = 1_663_070_400;
    assert_eq!(s.start, at(start));
    assert_eq!(s.end, at(start + 3600));
    assert_eq!(s.axis_end, at(start + 3660));
    assert_eq!(
        s.points,
        vec![
            (at(start), 0),
            (at(start + 900), 0),
            (at(start + 900), 10),
            (at(start + 1500), 10),
            (at(start + 1500), 20),
            (at(start + 2700), 20),
            (at(start + 2700), 10),
            (at(start + 3600), 10),
        ]
    );
}

#[test]
fn parse_rfc3339_reads_the_instant_in_utc() {
    assert_eq!(Timestamp::parse_rfc3339("2022-09-13T12:00:00+02:00"), Some(at(1_663_063_200)));
    assert_eq!(Timestamp::parse_rfc3339("2022-09-13T12:00:00Z"), Some(at(1_663_070_400)));
    assert_eq!(
        Timestamp::parse_rfc3339("1970-01-01T00:00:01.25Z"),
        Some(Timestamp { seconds: 1, nanos: 250_000_000 })
    );
}

#[test]
fn parse_rfc3339_refuses_other_text() {
    assert_eq!(Timestamp::parse_rfc3339("2022-09-13 12:00"), None);
    assert_eq!(Timestamp::parse_rfc3339(""), None);
    assert_eq!(Timestamp::parse_rfc3339("2022-02-30T00:00:00Z"), None);
}

#[test]
fn utc_calendar_instants() {
    assert_eq!(Timestamp::utc(2022, 9, 13, 12, 0, 0), Some(at(1_663_070_400)));
    assert_eq!(Timestamp::utc(1970, 1, 1, 0, 0, 0), Some(at(0)));
    assert_eq!(Timestamp::utc(2022, 13, 1, 0, 0, 0), None);
    assert_eq!(Timestamp::utc(2022, 9, 13, 24, 0, 0), None);
}

#[test]
fn plus_minutes_moves_by_whole_minutes() {
    assert_eq!(at(100).plus_minutes(0), Some(at(100)));
    assert_eq!(at(100).plus_minutes(15), Some(at(1000)));
    let t = Timestamp { seconds: -5, nanos: 7 };
    assert_eq!(t.plus_minutes(1), Some(Timestamp { seconds: 55, nanos: 7 }));
    assert_eq!(at(i64::MAX - 10).plus_minutes(1), None);
}

#[test]
fn precedence_is_by_seconds_then_nanoseconds() {
    assert!(at(1).is_before(&at(2)));
    assert!(!at(2).is_before(&at(1)));
    assert!(!at(2).is_before(&at(2)));
    assert!(Timestamp { seconds: 2, nanos: 1 }.is_before(&Timestamp { seconds: 2, nanos: 2 }));
    assert!(Timestamp { seconds: 1, nanos: 1_500_000_000 }.is_before(&at(2)));
}
