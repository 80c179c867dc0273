//! The corners of a step line through a series of readings, and the series
//! that the demo charts draw.

use crate::fit::{fit_demand_curve_inputs_into_datetime_range, fitted_inputs, DemandCurveInput};
use crate::timestamp::{instant_of, later, minutes_later, utc_calendar_instant, whole_second, Timestamp};
use vstd::prelude::*;

verus! {

/// Point `j` of the step line through `steps` that ends at `end`: step `i`
/// stands at `2 * i`; between two steps, the corner at the later step's key
/// that still carries the earlier step's value; last, the end at the last
/// step's value.
pub open spec fn step_point<K, V>(steps: Seq<(K, V)>, end: K, j: int) -> (K, V) {
    if j == 2 * steps.len() - 1 {
        (end, steps.last().1)
    } else if j % 2 == 0 {
        steps[j / 2]
    } else {
        (steps[(j + 1) / 2].0, steps[(j - 1) / 2].1)
    }
}

/// The points of the step line through `steps` up to `end`: none for no
/// steps, else two per step.
pub open spec fn step_line<K, V>(steps: Seq<(K, V)>, end: K) -> Seq<(K, V)> {
    if steps.len() == 0 {
        Seq::empty()
    } else {
        Seq::new(2 * steps.len(), |j: int| step_point(steps, end, j))
    }
}

/// The readings as pairs of timestamp and value.
pub open spec fn as_pairs<V>(s: Seq<DemandCurveInput<V>>) -> Seq<(Timestamp, V)> {
    s.map_values(|x: DemandCurveInput<V>| (x.timestamp, x.value))
}

/// The points of a line that holds each step's value until the next step's
/// key and the last value until `end`: the first step, then for every later
/// step the point at its key with the previous value and the step itself,
/// and last the point at `end` with the last value. No steps give no points.
pub fn step_line_points<K: Copy, V: Copy>(steps: &Vec<(K, V)>, end: K) -> (res: Vec<(K, V)>)
    ensures
        res@ == step_line(steps@, end),
        steps@.len() == 0 ==> res@.len() == 0,
        steps@.len() > 0 ==> res@.len() == 2 * steps@.len(),
        forall|i: int| 0 <= i < steps@.len() ==> #[trigger] res@[2 * i] == steps@[i],
        forall|i: int|
            0 <= i < steps@.len() - 1 ==> #[trigger] res@[2 * i + 1] == (steps@[i + 1].0, steps@[i].1),
        steps@.len() > 0 ==> res@[2 * steps@.len() - 1] == (end, steps@.last().1),
{
    let ghost s = steps@;
    let mut points: Vec<(K, V)> = Vec::new();
    if steps.len() == 0 {
        assert(points@ =~= step_line(s, end));
        return points;
    }
    let n: usize = steps.len();
    let mut previous: (K, V) = steps[0];
    points.push(previous);
    for i in 1..n
        invariant
            n == s.len(),
            s == steps@,
            1 <= i <= n,
            points@.len() == 2 * i - 1,
            previous == s[i - 1],
            forall|j: int| 0 <= j < 2 * i - 1 ==> #[trigger] points@[j] == step_point(s, end, j),
    {
        let input: (K, V) = steps[i];
        points.push((input.0, previous.1));
        points.push(input);
        previous = input;
        assert(step_point(s, end, 2 * i - 1) == (s[i as int].0, s[i - 1].1));
        assert(step_point(s, end, 2 * i as int) == s[i as int]);
    }
    points.push((end, previous.1));
    assert(points@ =~= step_line(s, end));
    proof {
        lemma_step_line_shape(s, end);
    }
    points
}

/// The points of the line that a fitted demand curve is drawn as: it holds
/// each reading's value until the next reading and the last value until `to`.
pub fn demand_curve_data_points<V: Copy>(fitted: &Vec<DemandCurveInput<V>>, to: Timestamp) -> (res: Vec<
    (Timestamp, V),
>)
    ensures
        res@ == step_line(as_pairs(fitted@), to),
        fitted@.len() == 0 ==> res@.len() == 0,
        fitted@.len() > 0 ==> res@.len() == 2 * fitted@.len(),
        forall|i: int|
            0 <= i < fitted@.len() ==> #[trigger] res@[2 * i] == (fitted@[i].timestamp, fitted@[i].value),
        forall|i: int|
            0 <= i < fitted@.len() - 1 ==> #[trigger] res@[2 * i + 1] == (
                fitted@[i + 1].timestamp,
                fitted@[i].value,
            ),
        fitted@.len() > 0 ==> res@[2 * fitted@.len() - 1] == (to, fitted@.last().value),
{
    let mut pairs: Vec<(Timestamp, V)> = Vec::new();
    let n: usize = fitted.len();
    for i in 0..n
        invariant
            n == fitted@.len(),
            pairs@ =~= as_pairs(fitted@.take(i as int)),
    {
        pairs.push((fitted[i].timestamp, fitted[i].value));
        assert(fitted@.take(i + 1) =~= fitted@.take(i as int).push(fitted@[i as int]));
    }
    assert(fitted@.take(n as int) =~= fitted@);
    proof {
        lemma_as_pairs(fitted@);
    }
    step_line_points(&pairs, to)
}

/// The pairs of readings are the readings one for one, in order.
pub proof fn lemma_as_pairs<V>(s: Seq<DemandCurveInput<V>>)
    ensures
        as_pairs(s).len() == s.len(),
        forall|i: int| 0 <= i < s.len() ==> #[trigger] as_pairs(s)[i] == (s[i].timestamp, s[i].value),
{
}

/// The line through any steps is made of horizontal and vertical segments:
/// it has two points per step, starts at the first step, passes every step,
/// ends at `end` with the last value, and any two neighbouring points share
/// their key or their value.
pub proof fn lemma_step_line_shape<K, V>(steps: Seq<(K, V)>, end: K)
    requires
        steps.len() > 0,
    ensures
        step_line(steps, end).len() == 2 * steps.len(),
        step_line(steps, end)[0] == steps[0],
        step_line(steps, end)[2 * steps.len() - 1] == (end, steps.last().1),
        forall|i: int| 0 <= i < steps.len() ==> #[trigger] step_line(steps, end)[2 * i] == steps[i],
        forall|i: int|
            0 <= i < steps.len() - 1 ==> #[trigger] step_line(steps, end)[2 * i + 1] == (
                steps[i + 1].0,
                steps[i].1,
            ),
        forall|j: int|
            0 <= j < 2 * steps.len() - 1 ==> (#[trigger] step_line(steps, end)[j]).0 == step_line(
                steps,
                end,
            )[j + 1].0 || step_line(steps, end)[j].1 == step_line(steps, end)[j + 1].1,
{
    let p = step_line(steps, end);
    assert forall|i: int| 0 <= i < steps.len() implies #[trigger] p[2 * i] == steps[i] by {
        assert((2 * i) / 2 == i);
    }
    assert forall|i: int| 0 <= i < steps.len() - 1 implies #[trigger] p[2 * i + 1] == (
        steps[i + 1].0,
        steps[i].1,
    ) by {
        assert((2 * i + 1 + 1) / 2 == i + 1);
        assert((2 * i + 1 - 1) / 2 == i);
    }
    assert forall|j: int| 0 <= j < 2 * steps.len() - 1 implies (#[trigger] p[j]).0 == p[j + 1].0
        || p[j].1 == p[j + 1].1 by {
        if j % 2 == 0 {
            if j + 1 == 2 * steps.len() - 1 {
                assert(j / 2 == steps.len() - 1);
            } else {
                assert((j + 1 - 1) / 2 == j / 2);
            }
        } else {
            assert((j + 1) / 2 == (j + 1) / 2);
        }
    }
}

/// The steps of the demo demand curve: demand 0 from -1, 5 from 1, 3 from 5
/// and 0 from 7.
pub open spec fn demand_curve_steps() -> Seq<(i32, i32)> {
    seq![(-1i32, 0i32), (1i32, 5i32), (5i32, 3i32), (7i32, 0i32)]
}

/// The points of the demo demand curve, a step line through its steps up to
/// 8: (-1, 0), (1, 0), (1, 5), (5, 5), (5, 3), (7, 3), (7, 0), (8, 0).
pub fn demand_curve_points() -> (res: Vec<(i32, i32)>)
    ensures
        res@ == step_line(demand_curve_steps(), 8i32),
        res@ == seq![
            (-1i32, 0i32),
            (1i32, 0i32),
            (1i32, 5i32),
            (5i32, 5i32),
            (5i32, 3i32),
            (7i32, 3i32),
            (7i32, 0i32),
            (8i32, 0i32),
        ],
{
    let steps: Vec<(i32, i32)> = vec![(-1, 0), (1, 5), (5, 3), (7, 0)];
    assert(steps@ =~= demand_curve_steps());
    let res = step_line_points(&steps, 8);
    let ghost expected = seq![
        (-1i32, 0i32),
        (1i32, 0i32),
        (1i32, 5i32),
        (5i32, 5i32),
        (5i32, 3i32),
        (7i32, 3i32),
        (7i32, 0i32),
        (8i32, 0i32),
    ];
    assert(res@ =~= expected) by {
        let d = demand_curve_steps();
        assert(step_point(d, 8i32, 0) == expected[0]);
        assert(step_point(d, 8i32, 1) == expected[1]);
        assert(step_point(d, 8i32, 2) == expected[2]);
        assert(step_point(d, 8i32, 3) == expected[3]);
        assert(step_point(d, 8i32, 4) == expected[4]);
        assert(step_point(d, 8i32, 5) == expected[5]);
        assert(step_point(d, 8i32, 6) == expected[6]);
        assert(step_point(d, 8i32, 7) == expected[7]);
    }
    res
}

/// The demo time series: its window, the end of its chart's time axis, and
/// the points of its curve.
#[derive(Debug)]
pub struct SampleSeries {
    pub start: Timestamp,
    pub end: Timestamp,
    pub axis_end: Timestamp,
    pub points: Vec<(Timestamp, i32)>,
}

/// The steps of the demo time series after `start`: 0 MW at the start, 10
/// after 15 minutes, 20 after 25 minutes and 10 after 45 minutes.
pub open spec fn sample_steps(start: Timestamp) -> Seq<(Timestamp, i32)> {
    seq![
        (start, 0i32),
        (later(start, 900), 10i32),
        (later(start, 1500), 20i32),
        (later(start, 2700), 10i32),
    ]
}

/// Whether `chrono` can give every instant of the demo time series after
/// the instant with these UNIX seconds: 15, 25, 45, 60 and 61 minutes later.
pub open spec fn sample_instants_exist(seconds: i64) -> bool {
    &&& minutes_later(seconds, 0, 15) is Some
    &&& minutes_later(seconds, 0, 25) is Some
    &&& minutes_later(seconds, 0, 45) is Some
    &&& minutes_later(seconds, 0, 60) is Some
    &&& minutes_later(seconds, 0, 61) is Some
}

/// The demo time series, which starts at 2022-09-13T12:00:00Z and lasts an
/// hour: demand 0 until 12:15, 10 until 12:25, 20 until 12:45, then 10. Its
/// chart's axis runs a minute past the end. `None` where `chrono` does not
/// give one of its instants.
pub fn sample_demand_series() -> (res: Option<SampleSeries>)
    ensures
        res is Some <==> (match utc_calendar_instant(2022, 9, 13, 12, 0, 0) {
            Some(s) => sample_instants_exist(s),
            None => false,
        }),
        res matches Some(r) ==> {
            &&& whole_second(utc_calendar_instant(2022, 9, 13, 12, 0, 0)) == Some(r.start)
            &&& r.end == later(r.start, 3600)
            &&& r.axis_end == later(r.start, 3660)
            &&& r.points@ == step_line(sample_steps(r.start), r.end)
        },
{
    let start = match Timestamp::utc(2022, 9, 13, 12, 0, 0) {
        Some(t) => t,
        None => return None,
    };
    let quarter = match start.plus_minutes(15) {
        Some(t) => t,
        None => return None,
    };
    let twenty_five = match start.plus_minutes(25) {
        Some(t) => t,
        None => return None,
    };
    let three_quarters = match start.plus_minutes(45) {
        Some(t) => t,
        None => return None,
    };
    let end = match start.plus_minutes(60) {
        Some(t) => t,
        None => return None,
    };
    let axis_end = match start.plus_minutes(61) {
        Some(t) => t,
        None => return None,
    };
    let steps: Vec<(Timestamp, i32)> = vec![(start, 0), (quarter, 10), (twenty_five, 20), (three_quarters, 10)];
    assert(steps@ =~= sample_steps(start));
    let points = step_line_points(&steps, end);
    Some(SampleSeries { start, end, axis_end, points })
}

/// What the chart of a demand curve over `[from, to)` draws: its time axis
/// runs to `axis_end`, a minute past `to`, and its line passes `points`.
#[derive(Debug)]
pub struct TimeSeriesChart<V> {
    pub axis_end: Timestamp,
    pub points: Vec<(Timestamp, V)>,
}

/// The chart of the readings `inputs` over `[from, to)`: the readings fitted
/// into the window, drawn as a step line that holds the last value until
/// `to`, on a time axis that runs a minute past `to`. `None` where `chrono`
/// has no instant a minute past `to`.
pub fn demand_curve_time_series_chart<V: Copy>(
    from: Timestamp,
    to: Timestamp,
    inputs: Vec<DemandCurveInput<V>>,
) -> (res: Option<TimeSeriesChart<V>>)
    ensures
        res is Some <==> minutes_later(to.seconds, to.nanos, 1) is Some,
        res matches Some(c) ==> {
            &&& instant_of(minutes_later(to.seconds, to.nanos, 1)) == Some(c.axis_end)
            &&& c.points@ == step_line(as_pairs(fitted_inputs(inputs@, from, to)), to)
        },
        res matches Some(c) ==> {
            let f = fitted_inputs(inputs@, from, to);
            &&& f.len() == 0 ==> c.points@.len() == 0
            &&& f.len() > 0 ==> c.points@.len() == 2 * f.len()
            &&& forall|i: int|
                0 <= i < f.len() ==> #[trigger] c.points@[2 * i] == (f[i].timestamp, f[i].value)
            &&& forall|i: int|
                0 <= i < f.len() - 1 ==> #[trigger] c.points@[2 * i + 1] == (
                    f[i + 1].timestamp,
                    f[i].value,
                )
            &&& f.len() > 0 ==> c.points@[2 * f.len() - 1] == (to, f.last().value)
        },
{
    let axis_end = match to.plus_minutes(1) {
        Some(t) => t,
        None => return None,
    };
    let fitted = fit_demand_curve_inputs_into_datetime_range(from, to, inputs);
    let points = demand_curve_data_points(&fitted, to);
    Some(TimeSeriesChart { axis_end, points })
}

} // verus!
