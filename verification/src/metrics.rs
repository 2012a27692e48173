//! Metric observations and their aggregation into exported data points.
//!
//! A counter and a histogram both accumulate observations tagged with
//! attribute sets. Aggregation is cumulative and groups observations by
//! exact match on the attribute set (not on attribute order): the first
//! observation of a new set opens a data point, later matching observations
//! fold into it. A counter point keeps a running total; a histogram point
//! keeps count, sum, minimum, maximum and per-bucket counts under fixed
//! boundaries.

use crate::attrs::copy_attrs;
use crate::attrs::attrs_match;
use crate::attrs::attrs_map;
use crate::attrs::AttrValue;
use crate::attrs::keys_unique;
use crate::attrs::value_model;
use crate::attrs::Attr;
use crate::attrs::ValueModel;
use vstd::prelude::*;

verus! {

/// One observation: a value recorded under an attribute set.
#[derive(Debug, PartialEq)]
pub struct Measurement {
    pub value: u64,
    pub attrs: Vec<Attr>,
}

/// The mathematical content of an observation.
#[verifier::ext_equal]
pub struct MeasurementModel {
    pub value: int,
    pub attrs: Map<Seq<char>, ValueModel>,
}

/// What an observation denotes.
pub open spec fn measurement_model(m: Measurement) -> MeasurementModel {
    MeasurementModel { value: m.value as int, attrs: attrs_map(m.attrs@) }
}

/// The models of a list of observations.
pub open spec fn models(ms: Seq<Measurement>) -> Seq<MeasurementModel> {
    ms.map_values(|m: Measurement| measurement_model(m))
}

/// Every observation carries an attribute list without repeated keys.
pub open spec fn measurements_wf(ms: Seq<Measurement>) -> bool {
    forall|i: int| 0 <= i < ms.len() ==> keys_unique((#[trigger] ms[i]).attrs@)
}

/// Sum of a sequence of integers.
pub open spec fn sum_ints(s: Seq<int>) -> int
    decreases s.len(),
{
    if s.len() == 0 {
        0
    } else {
        sum_ints(s.drop_last()) + s.last()
    }
}

/// Sum of the observed values.
pub open spec fn sum_of_values(ms: Seq<MeasurementModel>) -> int
    decreases ms.len(),
{
    if ms.len() == 0 {
        0
    } else {
        sum_of_values(ms.drop_last()) + ms.last().value
    }
}

/// The first group carrying this attribute set, or -1 if none does.
pub open spec fn group_index(
    groups: Seq<Map<Seq<char>, ValueModel>>,
    a: Map<Seq<char>, ValueModel>,
) -> int
    decreases groups.len(),
{
    if groups.len() == 0 {
        -1
    } else if groups[0] == a {
        0
    } else {
        let r = group_index(groups.drop_first(), a);
        if r < 0 {
            -1
        } else {
            1 + r
        }
    }
}

/// `group_index` finds exactly the first match.
pub proof fn lemma_group_index(groups: Seq<Map<Seq<char>, ValueModel>>, a: Map<Seq<char>, ValueModel>)
    ensures
        -1 <= group_index(groups, a) < groups.len(),
        group_index(groups, a) >= 0 ==> groups[group_index(groups, a)] == a,
        forall|k: int|
            0 <= k < groups.len() && (group_index(groups, a) == -1 || k < group_index(groups, a))
                ==> (#[trigger] groups[k]) != a,
    decreases groups.len(),
{
    if groups.len() > 0 && groups[0] != a {
        lemma_group_index(groups.drop_first(), a);
        assert forall|k: int|
            0 <= k < groups.len() && (group_index(groups, a) == -1 || k < group_index(groups, a))
                implies (#[trigger] groups[k]) != a by {
            if k > 0 {
                assert(groups.drop_first()[k - 1] == groups[k]);
            }
        }
    }
}

/// An exported counter data point: the cumulative total for one attribute set.
#[derive(Debug, PartialEq)]
pub struct CounterPoint {
    pub attrs: Vec<Attr>,
    pub total: u64,
}

/// The mathematical content of a counter data point.
#[verifier::ext_equal]
pub struct CounterPointModel {
    pub attrs: Map<Seq<char>, ValueModel>,
    pub total: int,
}

/// What a counter data point denotes.
pub open spec fn counter_point_model(p: CounterPoint) -> CounterPointModel {
    CounterPointModel { attrs: attrs_map(p.attrs@), total: p.total as int }
}

/// The models of a list of counter data points.
pub open spec fn counter_models(ps: Seq<CounterPoint>) -> Seq<CounterPointModel> {
    ps.map_values(|p: CounterPoint| counter_point_model(p))
}

/// The attribute sets of counter data points, in order.
pub open spec fn counter_groups(ps: Seq<CounterPointModel>) -> Seq<Map<Seq<char>, ValueModel>> {
    ps.map_values(|p: CounterPointModel| p.attrs)
}

/// The totals of counter data points, in order.
pub open spec fn counter_totals(ps: Seq<CounterPointModel>) -> Seq<int> {
    ps.map_values(|p: CounterPointModel| p.total)
}

/// Cumulative counter aggregation: observations in order, grouped by
/// attribute set; a new set opens a point at the end, a seen set adds
/// its value to the point that opened it.
pub open spec fn counter_points(ms: Seq<MeasurementModel>) -> Seq<CounterPointModel>
    decreases ms.len(),
{
    if ms.len() == 0 {
        Seq::<CounterPointModel>::empty()
    } else {
        let prev = counter_points(ms.drop_last());
        let m = ms.last();
        let gi = group_index(counter_groups(prev), m.attrs);
        if gi >= 0 {
            prev.update(gi, CounterPointModel { attrs: prev[gi].attrs, total: prev[gi].total + m.value })
        } else {
            prev.push(CounterPointModel { attrs: m.attrs, total: m.value })
        }
    }
}

proof fn lemma_sum_ints_update(s: Seq<int>, i: int, x: int)
    requires
        0 <= i < s.len(),
    ensures
        sum_ints(s.update(i, x)) == sum_ints(s) - s[i] + x,
    decreases s.len(),
{
    let t = s.update(i, x);
    if i == s.len() - 1 {
        assert(t.drop_last() =~= s.drop_last());
    } else {
        assert(t.drop_last() =~= s.drop_last().update(i, x));
        lemma_sum_ints_update(s.drop_last(), i, x);
    }
}

proof fn lemma_sum_ints_nonneg(s: Seq<int>)
    requires
        forall|k: int| 0 <= k < s.len() ==> #[trigger] s[k] >= 0,
    ensures
        sum_ints(s) >= 0,
    decreases s.len(),
{
    if s.len() > 0 {
        lemma_sum_ints_nonneg(s.drop_last());
    }
}

proof fn lemma_elem_le_sum(s: Seq<int>, i: int)
    requires
        forall|k: int| 0 <= k < s.len() ==> #[trigger] s[k] >= 0,
        0 <= i < s.len(),
    ensures
        s[i] <= sum_ints(s),
    decreases s.len(),
{
    if i == s.len() - 1 {
        lemma_sum_ints_nonneg(s.drop_last());
    } else {
        lemma_elem_le_sum(s.drop_last(), i);
    }
}

/// The totals of the aggregated counter sum to the values observed:
/// aggregation neither loses nor invents any count.
pub proof fn lemma_counter_conserves(ms: Seq<MeasurementModel>)
    ensures
        sum_ints(counter_totals(counter_points(ms))) == sum_of_values(ms),
    decreases ms.len(),
{
    if ms.len() == 0 {
        assert(counter_totals(counter_points(ms)) =~= Seq::<int>::empty());
    } else {
        lemma_counter_conserves(ms.drop_last());
        let prev = counter_points(ms.drop_last());
        let m = ms.last();
        let gi = group_index(counter_groups(prev), m.attrs);
        lemma_group_index(counter_groups(prev), m.attrs);
        if gi >= 0 {
            let p2 = CounterPointModel { attrs: prev[gi].attrs, total: prev[gi].total + m.value };
            assert(counter_totals(prev.update(gi, p2)) =~= counter_totals(prev).update(
                gi,
                prev[gi].total + m.value,
            ));
            lemma_sum_ints_update(counter_totals(prev), gi, prev[gi].total + m.value);
        } else {
            let p2 = CounterPointModel { attrs: m.attrs, total: m.value };
            assert(counter_totals(prev.push(p2)) =~= counter_totals(prev).push(m.value));
            assert(counter_totals(prev).push(m.value).drop_last() =~= counter_totals(prev));
        }
    }
}

/// Each attribute set occurs in at most one aggregated counter point.
pub proof fn lemma_counter_groups_unique(ms: Seq<MeasurementModel>)
    ensures
        forall|i: int, j: int|
            0 <= i < j < counter_points(ms).len() ==> (#[trigger] counter_points(ms)[i]).attrs != (
            #[trigger] counter_points(ms)[j]).attrs,
    decreases ms.len(),
{
    if ms.len() > 0 {
        lemma_counter_groups_unique(ms.drop_last());
        let prev = counter_points(ms.drop_last());
        let m = ms.last();
        let gi = group_index(counter_groups(prev), m.attrs);
        lemma_group_index(counter_groups(prev), m.attrs);
        let cur = counter_points(ms);
        assert forall|i: int, j: int| 0 <= i < j < cur.len() implies (#[trigger] cur[i]).attrs != (
        #[trigger] cur[j]).attrs by {
            if gi >= 0 {
                assert(prev[i].attrs == cur[i].attrs);
                assert(prev[j].attrs == cur[j].attrs);
            } else {
                if j == cur.len() - 1 {
                    assert(counter_groups(prev)[i] == prev[i].attrs);
                    assert(prev[i].attrs != m.attrs);
                } else {
                    assert(prev[i].attrs == cur[i].attrs);
                    assert(prev[j].attrs == cur[j].attrs);
                }
            }
        }
    }
}

/// Finds the counter point already opened for this attribute set.
fn find_counter_group(pts: &Vec<CounterPoint>, attrs: &Vec<Attr>) -> (r: Option<usize>)
    requires
        forall|k: int| 0 <= k < pts@.len() ==> keys_unique((#[trigger] pts@[k]).attrs@),
        keys_unique(attrs@),
    ensures
        ({
            let gi = group_index(counter_groups(counter_models(pts@)), attrs_map(attrs@));
            match r {
                Some(j) => j < pts@.len() && gi == j as int,
                None => gi == -1,
            }
        }),
{
    proof {
        lemma_group_index(counter_groups(counter_models(pts@)), attrs_map(attrs@));
    }
    let mut j: usize = 0;
    while j < pts.len()
        invariant
            forall|k: int| 0 <= k < pts@.len() ==> keys_unique((#[trigger] pts@[k]).attrs@),
            keys_unique(attrs@),
            j <= pts@.len(),
            forall|k: int|
                0 <= k < j ==> attrs_map((#[trigger] pts@[k]).attrs@) != attrs_map(attrs@),
        decreases pts@.len() - j,
    {
        if attrs_match(&pts[j].attrs, attrs) {
            proof {
                let groups = counter_groups(counter_models(pts@));
                let target = attrs_map(attrs@);
                lemma_group_index(groups, target);
                assert forall|k: int| 0 <= k < pts@.len() implies #[trigger] groups[k]
                    == attrs_map(pts@[k].attrs@) by {
                    assert(counter_models(pts@)[k] == counter_point_model(pts@[k]));
                }
                let gi = group_index(groups, target);
                assert(groups[j as int] == target);
                if gi == -1 {
                    assert(groups[j as int] != target);
                } else if gi < j as int {
                    assert(attrs_map(pts@[gi].attrs@) != target);
                    assert(groups[gi] == target);
                } else if gi > j as int {
                    assert(groups[j as int] != target);
                }
            }
            return Some(j);
        }
        j += 1;
    }
    proof {
        let groups = counter_groups(counter_models(pts@));
        let target = attrs_map(attrs@);
        lemma_group_index(groups, target);
        assert forall|k: int| 0 <= k < pts@.len() implies #[trigger] groups[k] == attrs_map(
            pts@[k].attrs@,
        ) by {
            assert(counter_models(pts@)[k] == counter_point_model(pts@[k]));
        }
        let gi = group_index(groups, target);
        if gi >= 0 {
            assert(groups[gi] == target);
            assert(attrs_map(pts@[gi].attrs@) != target);
        }
    }
    None
}

/// Aggregates counter observations into cumulative data points, grouped by
/// attribute set in order of first appearance.
pub fn aggregate_counter(ms: &Vec<Measurement>) -> (pts: Vec<CounterPoint>)
    requires
        measurements_wf(ms@),
        sum_of_values(models(ms@)) <= u64::MAX,
    ensures
        counter_models(pts@) == counter_points(models(ms@)),
        forall|k: int| 0 <= k < pts@.len() ==> keys_unique((#[trigger] pts@[k]).attrs@),
{
    proof {
        assert forall|k: int| 0 <= k < models(ms@).len() implies #[trigger] models(
            ms@,
        )[k].value >= 0 by {
            assert(models(ms@)[k] == measurement_model(ms@[k]));
        }
    }
    let mut pts: Vec<CounterPoint> = Vec::new();
    let mut i: usize = 0;
    while i < ms.len()
        invariant
            measurements_wf(ms@),
            sum_of_values(models(ms@)) <= u64::MAX,
            forall|k: int| 0 <= k < models(ms@).len() ==> #[trigger] models(ms@)[k].value >= 0,
            i <= ms@.len(),
            counter_models(pts@) == counter_points(models(ms@).take(i as int)),
            forall|k: int| 0 <= k < pts@.len() ==> keys_unique((#[trigger] pts@[k]).attrs@),
        decreases ms@.len() - i,
    {
        let ghost prefix = models(ms@).take(i as int);
        let ghost next_prefix = models(ms@).take(i as int + 1);
        let ghost m = measurement_model(ms@[i as int]);
        proof {
            assert(next_prefix.drop_last() =~= prefix);
            assert(next_prefix.last() == m);
        }
        match find_counter_group(&pts, &ms[i].attrs) {
            Some(j) => {
                proof {
                    lemma_counter_conserves(prefix);
                    assert forall|k: int|
                        0 <= k < counter_totals(counter_models(pts@)).len() implies #[trigger] counter_totals(
                        counter_models(pts@),
                    )[k] >= 0 by {
                        assert(counter_totals(counter_models(pts@))[k] == counter_models(
                            pts@,
                        )[k].total);
                    }
                    lemma_elem_le_sum(counter_totals(counter_models(pts@)), j as int);
                    lemma_sum_values_take(models(ms@), i as int + 1);
                    assert(counter_totals(counter_models(pts@))[j as int] == counter_models(
                        pts@,
                    )[j as int].total);
                }
                let ghost old_pts = pts@;
                let new_total = pts[j].total + ms[i].value;
                pts[j] = CounterPoint { attrs: copy_attrs(&pts[j].attrs), total: new_total };
                proof {
                    assert(counter_models(pts@) =~= counter_points(next_prefix)) by {
                        assert(counter_models(pts@) =~= counter_models(old_pts).update(
                            j as int,
                            CounterPointModel {
                                attrs: counter_models(old_pts)[j as int].attrs,
                                total: counter_models(old_pts)[j as int].total + m.value,
                            },
                        ));
                    }
                }
            },
            None => {
                pts.push(CounterPoint { attrs: copy_attrs(&ms[i].attrs), total: ms[i].value });
                proof {
                    assert(counter_models(pts@) =~= counter_points(next_prefix)) by {
                        assert(counter_models(pts@) =~= counter_points(prefix).push(
                            CounterPointModel { attrs: m.attrs, total: m.value },
                        ));
                    }
                }
            },
        }
        i += 1;
    }
    proof {
        assert(models(ms@).take(ms@.len() as int) =~= models(ms@));
    }
    pts
}

/// The fixed histogram bucket boundaries, sorted and strictly increasing.
pub open spec fn bucket_bounds() -> Seq<int> {
    seq![0, 5, 10, 25, 50, 75, 100, 250, 500, 750, 1000, 2500, 5000, 7500, 10000]
}

/// The bucket a value falls in, for sorted boundaries: the first bucket
/// whose bound is not below the value; past every bound, the overflow
/// bucket `bounds.len()`.
pub open spec fn bucket_in(bounds: Seq<int>, v: int) -> int
    decreases bounds.len(),
{
    if bounds.len() == 0 {
        0
    } else if v <= bounds[0] {
        0
    } else {
        1 + bucket_in(bounds.drop_first(), v)
    }
}

/// The bucket a value falls in under the fixed boundaries.
pub open spec fn bucket_of(v: int) -> int {
    bucket_in(bucket_bounds(), v)
}

/// `bucket_in` finds exactly the first bound not below the value.
proof fn lemma_bucket_in(bounds: Seq<int>, v: int)
    ensures
        0 <= bucket_in(bounds, v) <= bounds.len(),
        bucket_in(bounds, v) < bounds.len() ==> v <= bounds[bucket_in(bounds, v)],
        forall|k: int| 0 <= k < bucket_in(bounds, v) ==> v > (#[trigger] bounds[k]),
    decreases bounds.len(),
{
    if bounds.len() > 0 && v > bounds[0] {
        lemma_bucket_in(bounds.drop_first(), v);
        assert forall|k: int| 0 <= k < bucket_in(bounds, v) implies v > (#[trigger] bounds[k]) by {
            if k > 0 {
                assert(bounds.drop_first()[k - 1] == bounds[k]);
            }
        }
        if bucket_in(bounds, v) < bounds.len() {
            assert(bounds.drop_first()[bucket_in(bounds.drop_first(), v)] == bounds[bucket_in(
                bounds,
                v,
            )]);
        }
    }
}

/// One observation's bucket counts: a single count in its bucket.
pub open spec fn unit_buckets(v: int) -> Seq<int> {
    Seq::<int>::new(
        (bucket_bounds().len() + 1) as nat,
        |i: int|
            if i == bucket_of(v) {
                1
            } else {
                0
            },
    )
}

/// An exported histogram data point: count, sum, minimum, maximum and
/// bucket counts of the values observed for one attribute set.
#[derive(Debug, PartialEq)]
pub struct HistogramPoint {
    pub attrs: Vec<Attr>,
    pub count: u64,
    pub sum: u64,
    pub min: u64,
    pub max: u64,
    pub buckets: Vec<u64>,
}

/// The mathematical content of a histogram data point.
#[verifier::ext_equal]
pub struct HistogramPointModel {
    pub attrs: Map<Seq<char>, ValueModel>,
    pub count: int,
    pub sum: int,
    pub min: int,
    pub max: int,
    pub buckets: Seq<int>,
}

/// What a histogram data point denotes.
pub open spec fn histogram_point_model(p: HistogramPoint) -> HistogramPointModel {
    HistogramPointModel {
        attrs: attrs_map(p.attrs@),
        count: p.count as int,
        sum: p.sum as int,
        min: p.min as int,
        max: p.max as int,
        buckets: p.buckets@.map_values(|c: u64| c as int),
    }
}

/// The models of a list of histogram data points.
pub open spec fn histogram_models(ps: Seq<HistogramPoint>) -> Seq<HistogramPointModel> {
    ps.map_values(|p: HistogramPoint| histogram_point_model(p))
}

/// The attribute sets of histogram data points, in order.
pub open spec fn histogram_groups(ps: Seq<HistogramPointModel>) -> Seq<Map<Seq<char>, ValueModel>> {
    ps.map_values(|p: HistogramPointModel| p.attrs)
}

/// The counts of histogram data points, in order.
pub open spec fn histogram_counts(ps: Seq<HistogramPointModel>) -> Seq<int> {
    ps.map_values(|p: HistogramPointModel| p.count)
}

/// The sums of histogram data points, in order.
pub open spec fn histogram_sums(ps: Seq<HistogramPointModel>) -> Seq<int> {
    ps.map_values(|p: HistogramPointModel| p.sum)
}

/// Cumulative histogram aggregation: observations in order, grouped by
/// attribute set; a new set opens a point at the end, a seen set folds its
/// value into count, sum, minimum and maximum of the point that opened it.
pub open spec fn histogram_points(ms: Seq<MeasurementModel>) -> Seq<HistogramPointModel>
    decreases ms.len(),
{
    if ms.len() == 0 {
        Seq::<HistogramPointModel>::empty()
    } else {
        let prev = histogram_points(ms.drop_last());
        let m = ms.last();
        let gi = group_index(histogram_groups(prev), m.attrs);
        if gi >= 0 {
            let p = prev[gi];
            let bi = bucket_of(m.value);
            prev.update(
                gi,
                HistogramPointModel {
                    attrs: p.attrs,
                    count: p.count + 1,
                    sum: p.sum + m.value,
                    min: if m.value < p.min {
                        m.value
                    } else {
                        p.min
                    },
                    max: if m.value > p.max {
                        m.value
                    } else {
                        p.max
                    },
                    buckets: p.buckets.update(bi, p.buckets[bi] + 1),
                },
            )
        } else {
            prev.push(
                HistogramPointModel {
                    attrs: m.attrs,
                    count: 1,
                    sum: m.value,
                    min: m.value,
                    max: m.value,
                    buckets: unit_buckets(m.value),
                },
            )
        }
    }
}

proof fn lemma_sum_indicator(n: int, i: int)
    requires
        0 <= n,
    ensures
        sum_ints(
            Seq::<int>::new(
                n as nat,
                |k: int|
                    if k == i {
                        1
                    } else {
                        0
                    },
            ),
        ) == if 0 <= i < n {
            1int
        } else {
            0
        },
    decreases n,
{
    if n > 0 {
        lemma_sum_indicator(n - 1, i);
        let s = Seq::<int>::new(
            n as nat,
            |k: int|
                if k == i {
                    1
                } else {
                    0
                },
        );
        assert(s.drop_last() =~= Seq::<int>::new(
            (n - 1) as nat,
            |k: int|
                if k == i {
                    1
                } else {
                    0
                },
        ));
    }
}

/// Every aggregated histogram point carries one bucket per boundary plus
/// the overflow bucket; no bucket count is negative, and together the
/// buckets count exactly the point's observations.
pub proof fn lemma_histogram_buckets(ms: Seq<MeasurementModel>)
    ensures
        forall|k: int|
            0 <= k < histogram_points(ms).len() ==> {
                let p = #[trigger] histogram_points(ms)[k];
                &&& p.buckets.len() == bucket_bounds().len() + 1
                &&& sum_ints(p.buckets) == p.count
                &&& forall|b: int| 0 <= b < p.buckets.len() ==> #[trigger] p.buckets[b] >= 0
            },
    decreases ms.len(),
{
    if ms.len() > 0 {
        lemma_histogram_buckets(ms.drop_last());
        let prev = histogram_points(ms.drop_last());
        let m = ms.last();
        let gi = group_index(histogram_groups(prev), m.attrs);
        lemma_group_index(histogram_groups(prev), m.attrs);
        let cur = histogram_points(ms);
        assert forall|k: int| 0 <= k < cur.len() implies {
            let p = #[trigger] cur[k];
            &&& p.buckets.len() == bucket_bounds().len() + 1
            &&& sum_ints(p.buckets) == p.count
            &&& forall|b: int| 0 <= b < p.buckets.len() ==> #[trigger] p.buckets[b] >= 0
        } by {
            if gi >= 0 {
                if k != gi {
                    assert(cur[k] == prev[k]);
                } else {
                    let bi = bucket_of(m.value);
                    lemma_bucket_in(bucket_bounds(), m.value);
                    lemma_sum_ints_update(prev[gi].buckets, bi, prev[gi].buckets[bi] + 1);
                }
            } else {
                if k < cur.len() - 1 {
                    assert(cur[k] == prev[k]);
                } else {
                    lemma_bucket_in(bucket_bounds(), m.value);
                    lemma_sum_indicator(bucket_bounds().len() as int + 1, bucket_of(m.value));
                    assert(cur[k].buckets =~= Seq::<int>::new(
                        (bucket_bounds().len() + 1) as nat,
                        |t: int|
                            if t == bucket_of(m.value) {
                                1
                            } else {
                                0
                            },
                    ));
                }
            }
        }
    }
}

/// Histogram aggregation conserves the observations: the counts sum to the
/// number of observations and the sums to the values observed.
pub proof fn lemma_histogram_conserves(ms: Seq<MeasurementModel>)
    ensures
        sum_ints(histogram_counts(histogram_points(ms))) == ms.len(),
        sum_ints(histogram_sums(histogram_points(ms))) == sum_of_values(ms),
    decreases ms.len(),
{
    if ms.len() == 0 {
        assert(histogram_counts(histogram_points(ms)) =~= Seq::<int>::empty());
        assert(histogram_sums(histogram_points(ms)) =~= Seq::<int>::empty());
    } else {
        lemma_histogram_conserves(ms.drop_last());
        let prev = histogram_points(ms.drop_last());
        let m = ms.last();
        let gi = group_index(histogram_groups(prev), m.attrs);
        lemma_group_index(histogram_groups(prev), m.attrs);
        if gi >= 0 {
            let p = prev[gi];
            let cur = histogram_points(ms);
            assert(histogram_counts(cur) =~= histogram_counts(prev).update(gi, p.count + 1));
            assert(histogram_sums(cur) =~= histogram_sums(prev).update(gi, p.sum + m.value));
            lemma_sum_ints_update(histogram_counts(prev), gi, p.count + 1);
            lemma_sum_ints_update(histogram_sums(prev), gi, p.sum + m.value);
            assert(histogram_counts(prev)[gi] == p.count);
            assert(histogram_sums(prev)[gi] == p.sum);
        } else {
            let cur = histogram_points(ms);
            assert(histogram_counts(cur) =~= histogram_counts(prev).push(1));
            assert(histogram_sums(cur) =~= histogram_sums(prev).push(m.value));
            assert(histogram_counts(prev).push(1).drop_last() =~= histogram_counts(prev));
            assert(histogram_sums(prev).push(m.value).drop_last() =~= histogram_sums(prev));
        }
    }
}

/// Every aggregated histogram point has seen at least one observation, and
/// its minimum never exceeds its maximum.
pub proof fn lemma_histogram_points_sane(ms: Seq<MeasurementModel>)
    ensures
        forall|k: int|
            0 <= k < histogram_points(ms).len() ==> (#[trigger] histogram_points(ms)[k]).count >= 1
                && histogram_points(ms)[k].min <= histogram_points(ms)[k].max,
    decreases ms.len(),
{
    if ms.len() > 0 {
        lemma_histogram_points_sane(ms.drop_last());
        let prev = histogram_points(ms.drop_last());
        let m = ms.last();
        let gi = group_index(histogram_groups(prev), m.attrs);
        lemma_group_index(histogram_groups(prev), m.attrs);
        let cur = histogram_points(ms);
        assert forall|k: int| 0 <= k < cur.len() implies (#[trigger] cur[k]).count >= 1
            && cur[k].min <= cur[k].max by {
            if gi >= 0 {
                if k != gi {
                    assert(cur[k] == prev[k]);
                }
            } else {
                if k < cur.len() - 1 {
                    assert(cur[k] == prev[k]);
                }
            }
        }
    }
}

/// Each attribute set occurs in at most one aggregated histogram point.
pub proof fn lemma_histogram_groups_unique(ms: Seq<MeasurementModel>)
    ensures
        forall|i: int, j: int|
            0 <= i < j < histogram_points(ms).len() ==> (#[trigger] histogram_points(ms)[i]).attrs
                != (#[trigger] histogram_points(ms)[j]).attrs,
    decreases ms.len(),
{
    if ms.len() > 0 {
        lemma_histogram_groups_unique(ms.drop_last());
        let prev = histogram_points(ms.drop_last());
        let m = ms.last();
        let gi = group_index(histogram_groups(prev), m.attrs);
        lemma_group_index(histogram_groups(prev), m.attrs);
        let cur = histogram_points(ms);
        assert forall|i: int, j: int| 0 <= i < j < cur.len() implies (#[trigger] cur[i]).attrs != (
        #[trigger] cur[j]).attrs by {
            if gi >= 0 {
                assert(prev[i].attrs == cur[i].attrs);
                assert(prev[j].attrs == cur[j].attrs);
            } else {
                if j == cur.len() - 1 {
                    assert(histogram_groups(prev)[i] == prev[i].attrs);
                    assert(prev[i].attrs != m.attrs);
                } else {
                    assert(prev[i].attrs == cur[i].attrs);
                    assert(prev[j].attrs == cur[j].attrs);
                }
            }
        }
    }
}

/// The fixed histogram bucket boundaries as values.
fn bucket_bounds_list() -> (b: Vec<u64>)
    ensures
        b@.map_values(|x: u64| x as int) == bucket_bounds(),
        b@.len() == bucket_bounds().len(),
{
    let mut b: Vec<u64> = Vec::new();
    b.push(0);
    b.push(5);
    b.push(10);
    b.push(25);
    b.push(50);
    b.push(75);
    b.push(100);
    b.push(250);
    b.push(500);
    b.push(750);
    b.push(1000);
    b.push(2500);
    b.push(5000);
    b.push(7500);
    b.push(10000);
    proof {
        assert(b@.map_values(|x: u64| x as int) =~= bucket_bounds());
    }
    b
}

/// The bucket a value falls in under the fixed boundaries.
fn bucket_index(v: u64) -> (r: usize)
    ensures
        r as int == bucket_of(v as int),
        r <= bucket_bounds().len(),
{
    let bounds = bucket_bounds_list();
    let mut i: usize = 0;
    while i < bounds.len()
        invariant
            i <= bounds@.len(),
            bounds@.map_values(|x: u64| x as int) == bucket_bounds(),
            bounds@.len() == bucket_bounds().len(),
            forall|k: int| 0 <= k < i ==> (v as int) > (#[trigger] bucket_bounds()[k]),
        decreases bounds@.len() - i,
    {
        proof {
            assert(bucket_bounds()[i as int] == bounds@[i as int] as int);
        }
        if v <= bounds[i] {
            proof {
                lemma_bucket_in(bucket_bounds(), v as int);
                let bi = bucket_of(v as int);
                if bi < i as int {
                    assert((v as int) > bucket_bounds()[bi]);
                    assert((v as int) <= bucket_bounds()[bi]);
                } else if bi > i as int {
                    assert((v as int) > bucket_bounds()[i as int]);
                }
            }
            return i;
        }
        i += 1;
    }
    proof {
        lemma_bucket_in(bucket_bounds(), v as int);
        let bi = bucket_of(v as int);
        if bi < bucket_bounds().len() {
            assert((v as int) > bucket_bounds()[bi]);
            assert((v as int) <= bucket_bounds()[bi]);
        }
    }
    bounds.len()
}

/// Copies a list of bucket counts.
fn copy_counts(v: &Vec<u64>) -> (r: Vec<u64>)
    ensures
        r@ == v@,
{
    let mut r: Vec<u64> = Vec::new();
    let mut i: usize = 0;
    while i < v.len()
        invariant
            i <= v@.len(),
            r@ == v@.take(i as int),
        decreases v@.len() - i,
    {
        r.push(v[i]);
        proof {
            assert(r@ =~= v@.take(i as int + 1));
        }
        i += 1;
    }
    proof {
        assert(v@.take(v@.len() as int) =~= v@);
    }
    r
}

/// The bucket counts of a single observation: a one in its bucket.
fn unit_bucket_list(bi: usize) -> (r: Vec<u64>)
    requires
        bi <= bucket_bounds().len(),
    ensures
        r@.len() == bucket_bounds().len() + 1,
        forall|k: int|
            0 <= k < r@.len() ==> (#[trigger] r@[k]) as int == if k == bi as int {
                1int
            } else {
                0
            },
{
    let mut r: Vec<u64> = Vec::new();
    let mut k: usize = 0;
    while k < 16
        invariant
            k <= 16,
            r@.len() == k,
            forall|t: int| 0 <= t < k ==> (#[trigger] r@[t]) == 0,
        decreases 16 - k,
    {
        r.push(0);
        k += 1;
    }
    r[bi] = 1;
    r
}

/// Finds the histogram point already opened for this attribute set.
fn find_histogram_group(pts: &Vec<HistogramPoint>, attrs: &Vec<Attr>) -> (r: Option<usize>)
    requires
        forall|k: int| 0 <= k < pts@.len() ==> keys_unique((#[trigger] pts@[k]).attrs@),
        keys_unique(attrs@),
    ensures
        ({
            let gi = group_index(histogram_groups(histogram_models(pts@)), attrs_map(attrs@));
            match r {
                Some(j) => j < pts@.len() && gi == j as int,
                None => gi == -1,
            }
        }),
{
    let mut j: usize = 0;
    while j < pts.len()
        invariant
            forall|k: int| 0 <= k < pts@.len() ==> keys_unique((#[trigger] pts@[k]).attrs@),
            keys_unique(attrs@),
            j <= pts@.len(),
            forall|k: int|
                0 <= k < j ==> attrs_map((#[trigger] pts@[k]).attrs@) != attrs_map(attrs@),
        decreases pts@.len() - j,
    {
        if attrs_match(&pts[j].attrs, attrs) {
            proof {
                let groups = histogram_groups(histogram_models(pts@));
                let target = attrs_map(attrs@);
                lemma_group_index(groups, target);
                assert forall|k: int| 0 <= k < pts@.len() implies #[trigger] groups[k]
                    == attrs_map(pts@[k].attrs@) by {
                    assert(histogram_models(pts@)[k] == histogram_point_model(pts@[k]));
                }
                let gi = group_index(groups, target);
                assert(groups[j as int] == target);
                if gi == -1 {
                    assert(groups[j as int] != target);
                } else if gi < j as int {
                    assert(attrs_map(pts@[gi].attrs@) != target);
                    assert(groups[gi] == target);
                } else if gi > j as int {
                    assert(groups[j as int] != target);
                }
            }
            return Some(j);
        }
        j += 1;
    }
    proof {
        let groups = histogram_groups(histogram_models(pts@));
        let target = attrs_map(attrs@);
        lemma_group_index(groups, target);
        assert forall|k: int| 0 <= k < pts@.len() implies #[trigger] groups[k] == attrs_map(
            pts@[k].attrs@,
        ) by {
            assert(histogram_models(pts@)[k] == histogram_point_model(pts@[k]));
        }
        let gi = group_index(groups, target);
        if gi >= 0 {
            assert(groups[gi] == target);
            assert(attrs_map(pts@[gi].attrs@) != target);
        }
    }
    None
}

/// Aggregates histogram observations into data points carrying count, sum,
/// minimum, maximum and bucket counts, grouped by attribute set in order of
/// first appearance.
pub fn aggregate_histogram(ms: &Vec<Measurement>) -> (pts: Vec<HistogramPoint>)
    requires
        measurements_wf(ms@),
        sum_of_values(models(ms@)) <= u64::MAX,
    ensures
        histogram_models(pts@) == histogram_points(models(ms@)),
        forall|k: int| 0 <= k < pts@.len() ==> keys_unique((#[trigger] pts@[k]).attrs@),
{
    proof {
        assert forall|k: int| 0 <= k < models(ms@).len() implies #[trigger] models(
            ms@,
        )[k].value >= 0 by {
            assert(models(ms@)[k] == measurement_model(ms@[k]));
        }
    }
    let mut pts: Vec<HistogramPoint> = Vec::new();
    let mut i: usize = 0;
    while i < ms.len()
        invariant
            measurements_wf(ms@),
            sum_of_values(models(ms@)) <= u64::MAX,
            forall|k: int| 0 <= k < models(ms@).len() ==> #[trigger] models(ms@)[k].value >= 0,
            i <= ms@.len(),
            histogram_models(pts@) == histogram_points(models(ms@).take(i as int)),
            forall|k: int| 0 <= k < pts@.len() ==> keys_unique((#[trigger] pts@[k]).attrs@),
        decreases ms@.len() - i,
    {
        let ghost prefix = models(ms@).take(i as int);
        let ghost next_prefix = models(ms@).take(i as int + 1);
        let ghost m = measurement_model(ms@[i as int]);
        proof {
            assert(next_prefix.drop_last() =~= prefix);
            assert(next_prefix.last() == m);
        }
        match find_histogram_group(&pts, &ms[i].attrs) {
            Some(j) => {
                proof {
                    lemma_histogram_conserves(prefix);
                    lemma_histogram_buckets(prefix);
                    assert forall|k: int|
                        0 <= k < histogram_counts(histogram_models(pts@)).len()
                            implies #[trigger] histogram_counts(histogram_models(pts@))[k] >= 0
                            && histogram_sums(histogram_models(pts@))[k] >= 0 by {
                        assert(histogram_models(pts@)[k] == histogram_point_model(pts@[k]));
                    }
                    lemma_elem_le_sum(histogram_counts(histogram_models(pts@)), j as int);
                    lemma_elem_le_sum(histogram_sums(histogram_models(pts@)), j as int);
                    lemma_sum_values_take(models(ms@), i as int + 1);
                    assert(histogram_counts(histogram_models(pts@))[j as int] == histogram_models(
                        pts@,
                    )[j as int].count);
                    assert(histogram_sums(histogram_models(pts@))[j as int] == histogram_models(
                        pts@,
                    )[j as int].sum);
                }
                let ghost old_pts = pts@;
                let ghost hp = histogram_models(pts@)[j as int];
                let v = ms[i].value;
                let bi = bucket_index(v);
                let mut new_buckets = copy_counts(&pts[j].buckets);
                proof {
                    assert(hp.buckets.len() == bucket_bounds().len() + 1);
                    assert(hp.buckets[bi as int] == new_buckets@[bi as int] as int);
                    assert(forall|b: int|
                        0 <= b < hp.buckets.len() ==> #[trigger] hp.buckets[b] >= 0);
                    lemma_elem_le_sum(hp.buckets, bi as int);
                }
                let c = new_buckets[bi];
                new_buckets[bi] = c + 1;
                let p = HistogramPoint {
                    attrs: copy_attrs(&pts[j].attrs),
                    count: pts[j].count + 1,
                    sum: pts[j].sum + v,
                    min: if v < pts[j].min {
                        v
                    } else {
                        pts[j].min
                    },
                    max: if v > pts[j].max {
                        v
                    } else {
                        pts[j].max
                    },
                    buckets: new_buckets,
                };
                pts[j] = p;
                proof {
                    assert(histogram_models(pts@) =~~= histogram_points(next_prefix)) by {
                        assert(histogram_models(pts@) =~~= histogram_models(old_pts).update(
                            j as int,
                            HistogramPointModel {
                                attrs: hp.attrs,
                                count: hp.count + 1,
                                sum: hp.sum + m.value,
                                min: if m.value < hp.min {
                                    m.value
                                } else {
                                    hp.min
                                },
                                max: if m.value > hp.max {
                                    m.value
                                } else {
                                    hp.max
                                },
                                buckets: hp.buckets.update(
                                    bucket_of(m.value),
                                    hp.buckets[bucket_of(m.value)] + 1,
                                ),
                            },
                        ));
                    }
                }
            },
            None => {
                let v = ms[i].value;
                let bi = bucket_index(v);
                pts.push(
                    HistogramPoint {
                        attrs: copy_attrs(&ms[i].attrs),
                        count: 1,
                        sum: v,
                        min: v,
                        max: v,
                        buckets: unit_bucket_list(bi),
                    },
                );
                proof {
                    assert(histogram_models(pts@) =~~= histogram_points(next_prefix)) by {
                        assert(histogram_models(pts@) =~~= histogram_points(prefix).push(
                            HistogramPointModel {
                                attrs: m.attrs,
                                count: 1,
                                sum: m.value,
                                min: m.value,
                                max: m.value,
                                buckets: unit_buckets(m.value),
                            },
                        ));
                    }
                }
            },
        }
        i += 1;
    }
    proof {
        assert(models(ms@).take(ms@.len() as int) =~= models(ms@));
    }
    pts
}

/// The sum over a prefix of the observations never exceeds the sum over all
/// of them, when no value is negative.
proof fn lemma_sum_values_take(ms: Seq<MeasurementModel>, n: int)
    requires
        0 <= n <= ms.len(),
        forall|i: int| 0 <= i < ms.len() ==> (#[trigger] ms[i]).value >= 0,
    ensures
        sum_of_values(ms.take(n)) <= sum_of_values(ms),
        n > 0 ==> sum_of_values(ms.take(n)) == sum_of_values(ms.take(n - 1)) + ms[n - 1].value,
    decreases ms.len() - n,
{
    if n > 0 {
        assert(ms.take(n).drop_last() =~= ms.take(n - 1));
        assert(ms.take(n).last() == ms[n - 1]);
    }
    if n == ms.len() {
        assert(ms.take(n) =~= ms);
    } else {
        lemma_sum_values_take(ms, n + 1);
        assert(ms.take(n + 1).drop_last() =~= ms.take(n));
    }
}

/// The attribute set `{name=.., color=..}` every demo observation carries.
pub open spec fn fruit_group(name_v: Seq<char>, color_v: Seq<char>) -> Map<Seq<char>, ValueModel> {
    Map::<Seq<char>, ValueModel>::empty().insert("name"@, ValueModel::Text(name_v)).insert(
        "color"@,
        ValueModel::Text(color_v),
    )
}

/// The five observations the demo records, for the counter and for the
/// histogram alike: twice 1 under apple/green, once 2 under apple/red, then
/// 1 and 11 under banana/yellow.
pub open spec fn demo_observation_models() -> Seq<MeasurementModel> {
    seq![
        MeasurementModel { value: 1, attrs: fruit_group("apple"@, "green"@) },
        MeasurementModel { value: 1, attrs: fruit_group("apple"@, "green"@) },
        MeasurementModel { value: 2, attrs: fruit_group("apple"@, "red"@) },
        MeasurementModel { value: 1, attrs: fruit_group("banana"@, "yellow"@) },
        MeasurementModel { value: 11, attrs: fruit_group("banana"@, "yellow"@) },
    ]
}

proof fn lemma_demo_observation_sum()
    ensures
        sum_of_values(demo_observation_models()) == 16,
{
    let s = demo_observation_models();
    let s4 = s.drop_last();
    let s3 = s4.drop_last();
    let s2 = s3.drop_last();
    let s1 = s2.drop_last();
    let s0 = s1.drop_last();
    assert(s0.len() == 0);
    assert(sum_of_values(s0) == 0);
    assert(s1.last() == s[0] && s2.last() == s[1] && s3.last() == s[2] && s4.last() == s[3]);
    assert(sum_of_values(s1) == 1);
    assert(sum_of_values(s2) == 2);
    assert(sum_of_values(s3) == 4);
    assert(sum_of_values(s4) == 5);
    assert(sum_of_values(s) == 16);
}

/// Builds the attribute list `{name=.., color=..}` of one demo observation.
fn fruit_attrs(name_v: &str, color_v: &str) -> (r: Vec<Attr>)
    ensures
        keys_unique(r@),
        attrs_map(r@) == fruit_group(name_v@, color_v@),
{
    let mut r: Vec<Attr> = Vec::new();
    r.push(Attr { key: String::from_str("name"), value: AttrValue::Text(String::from_str(name_v)) });
    r.push(
        Attr { key: String::from_str("color"), value: AttrValue::Text(String::from_str(color_v)) },
    );
    proof {
        reveal_strlit("name");
        reveal_strlit("color");
        assert(("name"@).len() == 4);
        assert(("color"@).len() == 5);
        let s = r@;
        assert(s.drop_last().drop_last().len() == 0);
        assert(attrs_map(s.drop_last().drop_last()) == Map::<Seq<char>, ValueModel>::empty());
        assert(s.drop_last().last() == s[0]);
        assert(attrs_map(s.drop_last()) == Map::<Seq<char>, ValueModel>::empty().insert(
            "name"@,
            ValueModel::Text(name_v@),
        ));
    }
    r
}

/// The instrument names and the observation series of the demo's metrics:
/// one meter, one monotonic counter and one histogram under it, and the
/// five observations each instrument records.
pub struct MetricsPlan {
    pub meter_name: String,
    pub counter_name: String,
    pub histogram_name: String,
    pub observations: Vec<Measurement>,
}

/// The fixed metric observations the demo records: five values across three
/// attribute-set groupings, recorded by a counter and a histogram under one
/// named meter.
pub fn emit_metrics() -> (r: MetricsPlan)
    ensures
        r.meter_name@ == "function-emit-metrics-meter"@,
        r.counter_name@ == "function-emit-metrics-counter"@,
        r.histogram_name@ == "function-emit-metrics-histogram"@,
        measurements_wf(r.observations@),
        models(r.observations@) == demo_observation_models(),
        sum_of_values(models(r.observations@)) == 16,
{
    let mut observations: Vec<Measurement> = Vec::new();
    observations.push(Measurement { value: 1, attrs: fruit_attrs("apple", "green") });
    observations.push(Measurement { value: 1, attrs: fruit_attrs("apple", "green") });
    observations.push(Measurement { value: 2, attrs: fruit_attrs("apple", "red") });
    observations.push(Measurement { value: 1, attrs: fruit_attrs("banana", "yellow") });
    observations.push(Measurement { value: 11, attrs: fruit_attrs("banana", "yellow") });
    proof {
        assert(models(observations@) =~= demo_observation_models());
        lemma_demo_observation_sum();
    }
    MetricsPlan {
        meter_name: String::from_str("function-emit-metrics-meter"),
        counter_name: String::from_str("function-emit-metrics-counter"),
        histogram_name: String::from_str("function-emit-metrics-histogram"),
        observations,
    }
}

} // verus!
