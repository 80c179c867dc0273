//! Fitting a series of demand readings into a time window `[from, to)`.

use crate::timestamp::Timestamp;
use vstd::prelude::*;

verus! {

/// One reading of a demand curve: from `timestamp` on, the demand is `value`.
#[derive(Clone, Copy, Debug)]
pub struct DemandCurveInput<V> {
    pub timestamp: Timestamp,
    pub value: V,
}

/// `t` lies in the window `[from, to)`.
pub open spec fn in_window(t: Timestamp, from: Timestamp, to: Timestamp) -> bool {
    from.not_after(t) && t.precedes(to)
}

/// The readings whose timestamps lie in `[from, to)`, in their order.
pub open spec fn within_window<V>(s: Seq<DemandCurveInput<V>>, from: Timestamp, to: Timestamp) -> Seq<
    DemandCurveInput<V>,
>
    decreases s.len(),
{
    if s.len() == 0 {
        Seq::empty()
    } else {
        let w = within_window(s.drop_last(), from, to);
        if in_window(s.last().timestamp, from, to) {
            w.push(s.last())
        } else {
            w
        }
    }
}

/// Some reading lies exactly at `from`, and `from` lies in the window.
pub open spec fn has_input_at<V>(s: Seq<DemandCurveInput<V>>, from: Timestamp, to: Timestamp) -> bool {
    from.precedes(to) && exists|i: int| 0 <= i < s.len() && #[trigger] s[i].timestamp == from
}

/// The value of the last reading (in the order given) that lies before `from`.
pub open spec fn last_value_before<V>(s: Seq<DemandCurveInput<V>>, from: Timestamp) -> Option<V>
    decreases s.len(),
{
    if s.len() == 0 {
        None
    } else if s.last().timestamp.precedes(from) {
        Some(s.last().value)
    } else {
        last_value_before(s.drop_last(), from)
    }
}

/// The readings fitted into `[from, to)`: those in the window, in order; and,
/// where no reading lies exactly at `from` but some lie before it, first a
/// reading at `from` that carries the value of the last of those.
pub open spec fn fitted_inputs<V>(s: Seq<DemandCurveInput<V>>, from: Timestamp, to: Timestamp) -> Seq<
    DemandCurveInput<V>,
> {
    let w = within_window(s, from, to);
    match last_value_before(s, from) {
        Some(v) => if has_input_at(s, from, to) {
            w
        } else {
            seq![DemandCurveInput { timestamp: from, value: v }] + w
        },
        None => w,
    }
}

/// The readings come in order of time.
pub open spec fn chronological<V>(s: Seq<DemandCurveInput<V>>) -> bool {
    forall|i: int, j: int|
        0 <= i < j < s.len() ==> #[trigger] s[i].timestamp.not_after(#[trigger] s[j].timestamp)
}

/// Every reading lies in `[from, to)`.
pub open spec fn all_in_window<V>(s: Seq<DemandCurveInput<V>>, from: Timestamp, to: Timestamp) -> bool {
    forall|i: int| 0 <= i < s.len() ==> in_window(#[trigger] s[i].timestamp, from, to)
}

/// Fits `demand_curve_inputs` into the window `[from, to)`: keeps, in their
/// order, the readings whose timestamps lie in the window; where none of
/// them lies exactly at `from` and some reading lies before `from`, puts
/// first a reading at `from` with the value of the last such reading, so
/// that the curve is known from the window's start.
pub fn fit_demand_curve_inputs_into_datetime_range<V: Copy>(
    from: Timestamp,
    to: Timestamp,
    demand_curve_inputs: Vec<DemandCurveInput<V>>,
) -> (res: Vec<DemandCurveInput<V>>)
    ensures
        res@ == fitted_inputs(demand_curve_inputs@, from, to),
{
    let ghost s = demand_curve_inputs@;
    if demand_curve_inputs.len() == 0 {
        assert(s =~= Seq::<DemandCurveInput<V>>::empty());
        return demand_curve_inputs;
    }
    let mut last_demand_before_from: Option<V> = None;
    let mut fitted_demand_curve_inputs: Vec<DemandCurveInput<V>> = Vec::new();
    let mut found_input_with_from_timestamp = false;
    let n: usize = demand_curve_inputs.len();
    for i in 0..n
        invariant
            n == s.len(),
            s == demand_curve_inputs@,
            last_demand_before_from == last_value_before(s.take(i as int), from),
            fitted_demand_curve_inputs@ == within_window(s.take(i as int), from, to),
            found_input_with_from_timestamp == has_input_at(s.take(i as int), from, to),
    {
        let ghost prefix = s.take(i as int);
        let ghost next = s.take(i + 1);
        assert(next.drop_last() =~= prefix);
        assert(next.last() == s[i as int]);
        let demand_curve_input = &demand_curve_inputs[i];
        if demand_curve_input.timestamp.is_before(&from) {
            last_demand_before_from = Some(demand_curve_input.value);
        }
        if !demand_curve_input.timestamp.is_before(&from) && demand_curve_input.timestamp.is_before(
            &to,
        ) {
            if demand_curve_input.timestamp == from {
                found_input_with_from_timestamp = true;
            }
            fitted_demand_curve_inputs.push(
                DemandCurveInput {
                    timestamp: demand_curve_input.timestamp,
                    value: demand_curve_input.value,
                },
            );
        }
        proof {
            if has_input_at(next, from, to) {
                let j: int = choose|j: int| 0 <= j < next.len() && #[trigger] next[j].timestamp == from;
                if j < i {
                    assert(prefix[j].timestamp == from);
                }
            }
            if has_input_at(prefix, from, to) {
                let j: int = choose|j: int| 0 <= j < prefix.len() && #[trigger] prefix[j].timestamp == from;
                assert(next[j].timestamp == from);
            }
            if from.precedes(to) && s[i as int].timestamp == from {
                assert(next[i as int].timestamp == from);
            }
        }
    }
    assert(s.take(n as int) =~= s);
    if fitted_demand_curve_inputs.len() == 0 || !found_input_with_from_timestamp {
        match last_demand_before_from {
            Some(v) => {
                fitted_demand_curve_inputs.insert(0, DemandCurveInput { timestamp: from, value: v });
            },
            None => {},
        }
    }
    proof {
        lemma_has_input_kept(s, from, to);
    }
    let ghost w = within_window(s, from, to);
    assert(fitted_demand_curve_inputs@ =~= fitted_inputs(s, from, to));
    fitted_demand_curve_inputs
}

/// A reading at `from` in the window is kept by `within_window`.
proof fn lemma_has_input_kept<V>(s: Seq<DemandCurveInput<V>>, from: Timestamp, to: Timestamp)
    ensures
        has_input_at(s, from, to) ==> within_window(s, from, to).len() > 0,
        has_input_at(s, from, to) ==> has_input_at(within_window(s, from, to), from, to),
    decreases s.len(),
{
    if s.len() > 0 {
        lemma_has_input_kept(s.drop_last(), from, to);
        let w0 = within_window(s.drop_last(), from, to);
        if has_input_at(s, from, to) {
            let j: int = choose|j: int| 0 <= j < s.len() && #[trigger] s[j].timestamp == from;
            if j < s.len() - 1 {
                assert(s.drop_last()[j].timestamp == from);
                let k: int = choose|k: int| 0 <= k < w0.len() && #[trigger] w0[k].timestamp == from;
                if in_window(s.last().timestamp, from, to) {
                    assert(w0.push(s.last())[k].timestamp == from);
                }
            } else {
                assert(in_window(s.last().timestamp, from, to));
                let w = w0.push(s.last());
                assert(w[w.len() - 1].timestamp == from);
            }
        }
    }
}

/// What `within_window` keeps lies in the window and is one of the readings.
proof fn lemma_within_window_elements<V>(s: Seq<DemandCurveInput<V>>, from: Timestamp, to: Timestamp)
    ensures
        all_in_window(within_window(s, from, to), from, to),
        forall|j: int|
            0 <= j < within_window(s, from, to).len() ==> s.contains(
                #[trigger] within_window(s, from, to)[j],
            ),
    decreases s.len(),
{
    if s.len() > 0 {
        let d = s.drop_last();
        lemma_within_window_elements(d, from, to);
        let w0 = within_window(d, from, to);
        let w = within_window(s, from, to);
        assert forall|j: int| 0 <= j < w.len() implies s.contains(#[trigger] w[j]) by {
            if j < w0.len() {
                assert(d.contains(w0[j]));
                let k: int = choose|k: int| 0 <= k < d.len() && d[k] == w0[j];
                assert(s[k] == d[k]);
            } else {
                assert(s[s.len() - 1] == s.last());
            }
        }
    }
}

/// Readings that all lie in the window are kept as they are.
proof fn lemma_within_window_identity<V>(s: Seq<DemandCurveInput<V>>, from: Timestamp, to: Timestamp)
    requires
        all_in_window(s, from, to),
    ensures
        within_window(s, from, to) == s,
    decreases s.len(),
{
    if s.len() > 0 {
        let d = s.drop_last();
        assert(all_in_window(d, from, to)) by {
            assert forall|i: int| 0 <= i < d.len() implies in_window(#[trigger] d[i].timestamp, from, to) by {
                assert(d[i] == s[i]);
            }
        }
        lemma_within_window_identity(d, from, to);
        assert(in_window(s[s.len() - 1].timestamp, from, to));
        assert(d.push(s.last()) =~= s);
    }
}

/// Where no reading lies before `from`, there is no value before `from`.
proof fn lemma_no_value_before<V>(s: Seq<DemandCurveInput<V>>, from: Timestamp)
    requires
        forall|i: int| 0 <= i < s.len() ==> from.not_after(#[trigger] s[i].timestamp),
    ensures
        last_value_before(s, from) is None,
    decreases s.len(),
{
    if s.len() > 0 {
        let d = s.drop_last();
        assert forall|i: int| 0 <= i < d.len() implies from.not_after(#[trigger] d[i].timestamp) by {
            assert(d[i] == s[i]);
        }
        lemma_no_value_before(d, from);
        assert(from.not_after(s[s.len() - 1].timestamp));
    }
}

/// Where some reading lies before `from`, there is a value before `from`.
proof fn lemma_some_value_before<V>(s: Seq<DemandCurveInput<V>>, from: Timestamp, i: int)
    requires
        0 <= i < s.len(),
        s[i].timestamp.precedes(from),
    ensures
        last_value_before(s, from) is Some,
    decreases s.len(),
{
    if !s.last().timestamp.precedes(from) {
        let d = s.drop_last();
        if i == s.len() - 1 {
            assert(s[i] == s.last());
        } else {
            assert(d[i] == s[i]);
            lemma_some_value_before(d, from, i);
        }
    }
}

/// `within_window` keeps readings that come in order of time in order.
proof fn lemma_within_window_chronological<V>(
    s: Seq<DemandCurveInput<V>>,
    from: Timestamp,
    to: Timestamp,
)
    requires
        chronological(s),
    ensures
        chronological(within_window(s, from, to)),
    decreases s.len(),
{
    if s.len() > 0 {
        let d = s.drop_last();
        assert(chronological(d)) by {
            assert forall|i: int, j: int| 0 <= i < j < d.len() implies #[trigger] d[i].timestamp.not_after(
                #[trigger] d[j].timestamp,
            ) by {
                assert(d[i] == s[i] && d[j] == s[j]);
            }
        }
        lemma_within_window_chronological(d, from, to);
        lemma_within_window_elements(d, from, to);
        let w0 = within_window(d, from, to);
        if in_window(s.last().timestamp, from, to) {
            let w = w0.push(s.last());
            assert forall|i: int, j: int| 0 <= i < j < w.len() implies #[trigger] w[i].timestamp.not_after(
                #[trigger] w[j].timestamp,
            ) by {
                if j == w.len() - 1 {
                    assert(d.contains(w0[i]));
                    let k: int = choose|k: int| 0 <= k < d.len() && d[k] == w0[i];
                    assert(s[k] == d[k]);
                    assert(s[s.len() - 1] == s.last());
                } else {
                    assert(w[i] == w0[i] && w[j] == w0[j]);
                }
            }
        }
    }
}

/// For a window that is not empty, every fitted reading lies in the window:
/// at or after `from` and before `to`.
pub proof fn lemma_fitted_inputs_in_window<V>(s: Seq<DemandCurveInput<V>>, from: Timestamp, to: Timestamp)
    requires
        from.precedes(to),
    ensures
        all_in_window(fitted_inputs(s, from, to), from, to),
        forall|i: int|
            0 <= i < fitted_inputs(s, from, to).len() ==> !(#[trigger] fitted_inputs(s, from, to)[i]).timestamp.precedes(
                from,
            ) && fitted_inputs(s, from, to)[i].timestamp.precedes(to),
{
    lemma_within_window_elements(s, from, to);
    let w = within_window(s, from, to);
    let f = fitted_inputs(s, from, to);
    assert forall|i: int| 0 <= i < f.len() implies in_window(#[trigger] f[i].timestamp, from, to) by {
        if f.len() != w.len() && i > 0 {
            assert(f[i] == w[i - 1]);
        }
    }
}

/// For a window that is not empty, fitting is idempotent: fitting fitted
/// readings again into the same window changes nothing.
pub proof fn lemma_fit_idempotent<V>(s: Seq<DemandCurveInput<V>>, from: Timestamp, to: Timestamp)
    requires
        from.precedes(to),
    ensures
        fitted_inputs(fitted_inputs(s, from, to), from, to) == fitted_inputs(s, from, to),
{
    let f = fitted_inputs(s, from, to);
    lemma_fitted_inputs_in_window(s, from, to);
    lemma_within_window_identity(f, from, to);
    lemma_no_value_before(f, from);
}

/// Fitting keeps readings that come in order of time in order.
pub proof fn lemma_fit_chronological<V>(s: Seq<DemandCurveInput<V>>, from: Timestamp, to: Timestamp)
    requires
        chronological(s),
    ensures
        chronological(fitted_inputs(s, from, to)),
{
    lemma_within_window_chronological(s, from, to);
    lemma_within_window_elements(s, from, to);
    let w = within_window(s, from, to);
    let f = fitted_inputs(s, from, to);
    if f.len() != w.len() {
        assert forall|i: int, j: int| 0 <= i < j < f.len() implies #[trigger] f[i].timestamp.not_after(
            #[trigger] f[j].timestamp,
        ) by {
            assert(f[j] == w[j - 1]);
            if i > 0 {
                assert(f[i] == w[i - 1]);
            } else {
                assert(in_window(w[j - 1].timestamp, from, to));
            }
        }
    }
}

/// For a window that is not empty and readings in order of time of which
/// some lies at or before `from`, the fitted curve starts exactly at `from`.
pub proof fn lemma_fit_starts_at_from<V>(
    s: Seq<DemandCurveInput<V>>,
    from: Timestamp,
    to: Timestamp,
    i: int,
)
    requires
        from.precedes(to),
        chronological(s),
        0 <= i < s.len(),
        s[i].timestamp.not_after(from),
    ensures
        fitted_inputs(s, from, to).len() > 0,
        fitted_inputs(s, from, to)[0].timestamp == from,
{
    let w = within_window(s, from, to);
    if has_input_at(s, from, to) {
        lemma_has_input_kept(s, from, to);
        lemma_within_window_chronological(s, from, to);
        lemma_within_window_elements(s, from, to);
        let k: int = choose|k: int| 0 <= k < w.len() && #[trigger] w[k].timestamp == from;
        assert(in_window(w[0].timestamp, from, to));
        if k > 0 {
            assert(w[0].timestamp.not_after(w[k].timestamp));
        }
    } else {
        if s[i].timestamp == from {
            assert(has_input_at(s, from, to));
        }
        lemma_some_value_before(s, from, i);
    }
}

/// The readings kept from the window are exactly those at or after `from`
/// and before `to`, in their order.
pub proof fn lemma_within_window_is_filter<V>(s: Seq<DemandCurveInput<V>>, from: Timestamp, to: Timestamp)
    ensures
        within_window(s, from, to) == s.filter(
            |x: DemandCurveInput<V>| !x.timestamp.precedes(from) && x.timestamp.precedes(to),
        ),
    decreases s.len(),
{
    reveal(Seq::filter);
    if s.len() > 0 {
        lemma_within_window_is_filter(s.drop_last(), from, to);
    }
}

/// There is a value before `from` exactly when some reading lies before
/// `from`; it is the value of such a reading after which no reading lies
/// before `from`.
pub proof fn lemma_last_value_before<V>(s: Seq<DemandCurveInput<V>>, from: Timestamp)
    ensures
        last_value_before(s, from) is Some <==> exists|i: int|
            0 <= i < s.len() && (#[trigger] s[i]).timestamp.precedes(from),
        last_value_before(s, from) matches Some(v) ==> exists|i: int|
            0 <= i < s.len() && (#[trigger] s[i]).timestamp.precedes(from) && s[i].value == v && forall|
                j: int,
            | i < j < s.len() ==> !(#[trigger] s[j]).timestamp.precedes(from),
    decreases s.len(),
{
    if s.len() > 0 {
        let d = s.drop_last();
        lemma_last_value_before(d, from);
        let n = s.len() - 1;
        if s.last().timestamp.precedes(from) {
            assert(s[n] == s.last());
            assert(s[n].timestamp.precedes(from));
        } else {
            assert(s[n] == s.last());
            if exists|i: int| 0 <= i < s.len() && (#[trigger] s[i]).timestamp.precedes(from) {
                let i = choose|i: int| 0 <= i < s.len() && (#[trigger] s[i]).timestamp.precedes(from);
                assert(d[i] == s[i]);
            }
            if exists|i: int| 0 <= i < d.len() && (#[trigger] d[i]).timestamp.precedes(from) {
                let i = choose|i: int| 0 <= i < d.len() && (#[trigger] d[i]).timestamp.precedes(from);
                assert(s[i] == d[i]);
            }
            if let Some(v) = last_value_before(d, from) {
                let i = choose|i: int|
                    0 <= i < d.len() && (#[trigger] d[i]).timestamp.precedes(from) && d[i].value == v
                        && forall|j: int| i < j < d.len() ==> !(#[trigger] d[j]).timestamp.precedes(from);
                assert(s[i] == d[i]);
                assert forall|j: int| i < j < s.len() implies !(#[trigger] s[j]).timestamp.precedes(from) by {
                    if j < n {
                        assert(s[j] == d[j]);
                    }
                }
            }
        }
    }
}

/// What fitting gives, described without the recursive definitions: the
/// readings at or after `from` and before `to`, in order; preceded, exactly
/// when no reading lies at `from` inside a non-empty window and some reading
/// lies before `from`, by a reading at `from` with the value of the last
/// reading (in the order given) that lies before `from`.
pub proof fn lemma_fitted_inputs_described<V>(s: Seq<DemandCurveInput<V>>, from: Timestamp, to: Timestamp)
    ensures
        ({
            let w = s.filter(
                |x: DemandCurveInput<V>| !x.timestamp.precedes(from) && x.timestamp.precedes(to),
            );
            let at_from = from.precedes(to) && exists|i: int|
                0 <= i < s.len() && #[trigger] s[i].timestamp == from;
            let before = exists|i: int| 0 <= i < s.len() && (#[trigger] s[i]).timestamp.precedes(from);
            &&& (at_from || !before) ==> fitted_inputs(s, from, to) == w
            &&& (!at_from && before) ==> exists|i: int|
                0 <= i < s.len() && (#[trigger] s[i]).timestamp.precedes(from) && (forall|j: int|
                    i < j < s.len() ==> !(#[trigger] s[j]).timestamp.precedes(from))
                    && fitted_inputs(s, from, to) == seq![
                    DemandCurveInput { timestamp: from, value: s[i].value },
                ] + w
        }),
{
    lemma_within_window_is_filter(s, from, to);
    lemma_last_value_before(s, from);
}

} // verus!
