//! Typed samples and the parser that turns one raw series value into them.

use vstd::prelude::*;

verus! {

use crate::date::{
    Date,
    sentinel,
    sentinel_date,
    spec_parse_date,
    spec_format_date,
    parse_date,
    format_date,
    lemma_date_round_trip,
    day_number_of,
};
use crate::num::{VALUE_LIMIT, spec_clamp, clamp_value};

/// One data point of a financial time series.
#[derive(Clone, Copy, PartialEq, Eq, Structural, Debug)]
pub struct Sample {
    pub period: Date,
    /// Fixed-point, hundredths of a unit.
    pub value: i64,
}

/// One element of a raw series array: the period exactly as its text stood
/// in the document (UTF-8 bytes), and the numeric field if one was present.
#[derive(Clone, PartialEq, Eq, Debug)]
pub struct RawPoint {
    pub period: Vec<u8>,
    pub value: Option<i64>,
}

/// The raw value a metric maps to in the series document: a list of points,
/// a placeholder text where the provider returned none, or nothing at all
/// (the not-found marker the selector degrades to).
#[derive(Clone, PartialEq, Eq, Debug)]
pub enum RawSeries {
    Points(Vec<RawPoint>),
    Text(String),
    Absent,
}

/// A sample is renderable when its date is valid and its value is inside the
/// fixed-point window; everything `parse_series` returns satisfies this.
pub open spec fn sample_ok(s: Sample) -> bool {
    &&& s.period.wf()
    &&& -(VALUE_LIMIT as int) <= s.value <= VALUE_LIMIT as int
}

pub open spec fn all_samples_ok(s: Seq<Sample>) -> bool {
    forall|i: int| 0 <= i < s.len() ==> sample_ok(#[trigger] s[i])
}

/// The date a period string parses to; unparseable text falls back to the
/// sentinel rather than an error.
pub open spec fn date_or_sentinel(s: Seq<u8>) -> Date {
    match spec_parse_date(s) {
        Some(d) => d,
        None => sentinel_date(),
    }
}

pub open spec fn spec_sample_of(p: RawPoint) -> Sample {
    Sample { period: date_or_sentinel(p.period@), value: spec_clamp(p.value->0 as int) as i64 }
}

/// What parsing an array of raw points yields: elements without a numeric
/// field are skipped, the rest become samples in input order.
pub open spec fn spec_parse_points(ps: Seq<RawPoint>) -> Seq<Sample>
    decreases ps.len(),
{
    if ps.len() == 0 {
        Seq::empty()
    } else {
        let rest = spec_parse_points(ps.drop_last());
        if ps.last().value is Some {
            rest.push(spec_sample_of(ps.last()))
        } else {
            rest
        }
    }
}

/// What parsing a raw series value yields: anything but a point array is an
/// empty sequence, never an error.
pub open spec fn spec_parse_series(raw: RawSeries) -> Seq<Sample> {
    match raw {
        RawSeries::Points(ps) => spec_parse_points(ps@),
        RawSeries::Text(_) => Seq::empty(),
        RawSeries::Absent => Seq::empty(),
    }
}

pub proof fn lemma_parse_points_ok(ps: Seq<RawPoint>)
    ensures
        all_samples_ok(spec_parse_points(ps)),
    decreases ps.len(),
{
    if ps.len() > 0 {
        lemma_parse_points_ok(ps.drop_last());
    }
}

fn sample_of(p: &RawPoint, value: i64) -> (s: Sample)
    requires
        p.value == Some(value),
    ensures
        s == spec_sample_of(*p),
{
    let period = match parse_date(&p.period) {
        Some(d) => d,
        None => sentinel(),
    };
    Sample { period, value: clamp_value(value) }
}

pub fn parse_points(ps: &Vec<RawPoint>) -> (out: Vec<Sample>)
    ensures
        out@ == spec_parse_points(ps@),
{
    let mut out: Vec<Sample> = Vec::new();
    let n = ps.len();
    for i in 0..n
        invariant
            n == ps@.len(),
            out@ == spec_parse_points(ps@.take(i as int)),
    {
        proof {
            assert(ps@.take(i + 1).drop_last() =~= ps@.take(i as int));
            assert(ps@.take(i + 1).last() == ps@[i as int]);
        }
        match ps[i].value {
            Some(v) => {
                let s = sample_of(&ps[i], v);
                out.push(s);
            },
            None => {},
        }
    }
    proof {
        assert(ps@.take(n as int) =~= ps@);
    }
    out
}

/// Sample Parser: one raw series value to typed samples; malformed shapes
/// yield an empty sequence, unparseable dates the sentinel date.
pub fn parse_series(raw: &RawSeries) -> (out: Vec<Sample>)
    ensures
        out@ == spec_parse_series(*raw),
        all_samples_ok(out@),
{
    proof {
        if raw is Points {
            lemma_parse_points_ok(raw->Points_0@);
        }
    }
    match raw {
        RawSeries::Points(ps) => parse_points(ps),
        RawSeries::Text(_) => Vec::new(),
        RawSeries::Absent => Vec::new(),
    }
}

/// Serializes samples back to the raw shape: each period as its `YYYY-MM-DD`
/// text, each value present.
pub fn points_of_samples(samples: &Vec<Sample>) -> (out: Vec<RawPoint>)
    requires
        all_samples_ok(samples@),
    ensures
        out@.len() == samples@.len(),
        forall|i: int|
            0 <= i < samples@.len() ==> {
                &&& (#[trigger] out@[i]).period@ == spec_format_date(samples@[i].period)
                &&& out@[i].value == Some(samples@[i].value)
            },
{
    let mut out: Vec<RawPoint> = Vec::new();
    let n = samples.len();
    for i in 0..n
        invariant
            n == samples@.len(),
            all_samples_ok(samples@),
            out@.len() == i,
            forall|k: int|
                0 <= k < i ==> {
                    &&& (#[trigger] out@[k]).period@ == spec_format_date(samples@[k].period)
                    &&& out@[k].value == Some(samples@[k].value)
                },
    {
        assert(sample_ok(samples@[i as int]));
        let period = format_date(&samples[i].period);
        out.push(RawPoint { period, value: Some(samples[i].value) });
    }
    out
}

/// Parser round trip: a sample list serialized to the raw shape and parsed
/// again comes back unchanged, dates at day granularity, values exactly.
pub proof fn lemma_parser_round_trip(samples: Seq<Sample>, points: Seq<RawPoint>)
    requires
        all_samples_ok(samples),
        points.len() == samples.len(),
        forall|i: int|
            0 <= i < samples.len() ==> {
                &&& (#[trigger] points[i]).period@ == spec_format_date(samples[i].period)
                &&& points[i].value == Some(samples[i].value)
            },
    ensures
        spec_parse_points(points) == samples,
    decreases samples.len(),
{
    if samples.len() > 0 {
        lemma_parser_round_trip(samples.drop_last(), points.drop_last());
        let p = points.last();
        let s = samples.last();
        assert(sample_ok(s));
        lemma_date_round_trip(s.period);
        assert(spec_sample_of(p) == s);
        assert(spec_parse_points(points) =~= samples);
    } else {
        assert(spec_parse_points(points) =~= samples);
    }
}

/// Ordering of samples: by period alone, dates compared as day numbers —
/// which `crate::date::lemma_day_number_orders_dates` shows is calendar
/// order.
pub open spec fn le_period(a: Sample, b: Sample) -> bool {
    a.period.day_number() <= b.period.day_number()
}

pub open spec fn sorted_by_period(s: Seq<Sample>) -> bool {
    forall|i: int, j: int| 0 <= i <= j < s.len() ==> le_period(#[trigger] s[i], #[trigger] s[j])
}

/// Inserts before the first strictly later sample, so runs of equal periods
/// keep their input order.
fn insert_sorted(out: &mut Vec<Sample>, s: Sample)
    requires
        sorted_by_period(old(out)@),
        all_samples_ok(old(out)@),
        sample_ok(s),
    ensures
        sorted_by_period(final(out)@),
        all_samples_ok(final(out)@),
        final(out)@.to_multiset() == old(out)@.to_multiset().insert(s),
        final(out)@.len() == old(out)@.len() + 1,
{
    let dn = day_number_of(&s.period);
    let n = out.len();
    let mut j: usize = 0;
    loop
        invariant
            n == out@.len(),
            0 <= j <= n,
            *out == *old(out),
            sorted_by_period(out@),
            all_samples_ok(out@),
            dn == s.period.day_number(),
            forall|k: int| 0 <= k < j ==> (#[trigger] out@[k]).period.day_number() <= dn,
        ensures
            *out == *old(out),
            0 <= j <= n,
            forall|k: int| 0 <= k < j ==> (#[trigger] out@[k]).period.day_number() <= dn,
            j < n ==> out@[j as int].period.day_number() > dn,
        decreases n - j,
    {
        if j == n {
            break;
        }
        assert(sample_ok(out@[j as int]));
        if day_number_of(&out[j].period) > dn {
            break;
        }
        j += 1;
    }
    out.insert(j, s);
    proof {
        vstd::seq_lib::to_multiset_insert(old(out)@, j as int, s);
        assert forall|a: int, b: int| 0 <= a <= b < out@.len() implies le_period(
            #[trigger] out@[a],
            #[trigger] out@[b],
        ) by {
            let ghost prev = old(out)@;
            if a < j && b == j {
                assert(out@[a] == prev[a]);
            } else if a == j && b > j {
                assert(out@[b] == prev[b - 1]);
                assert(le_period(prev[j as int], prev[b - 1]));
            } else if a < j && b > j {
                assert(out@[a] == prev[a] && out@[b] == prev[b - 1]);
            } else if a > j && b > j {
                assert(out@[a] == prev[a - 1] && out@[b] == prev[b - 1]);
            }
        }
        assert(all_samples_ok(out@)) by {
            assert(forall|k: int|
                0 <= k < out@.len() && k != j ==> #[trigger] out@[k] == if k < j {
                    old(out)@[k]
                } else {
                    old(out)@[k - 1]
                });
        }
    }
}

/// Sort invariant: sorting leaves a sequence non-decreasing by period and
/// keeps exactly the same samples.
pub fn sort_samples(v: &mut Vec<Sample>)
    requires
        all_samples_ok(old(v)@),
    ensures
        sorted_by_period(final(v)@),
        all_samples_ok(final(v)@),
        final(v)@.to_multiset() == old(v)@.to_multiset(),
        final(v)@.len() == old(v)@.len(),
{
    let mut out: Vec<Sample> = Vec::new();
    let n = v.len();
    proof {
        assert(v@.take(0) =~= out@);
    }
    for i in 0..n
        invariant
            n == v@.len(),
            all_samples_ok(v@),
            sorted_by_period(out@),
            all_samples_ok(out@),
            out@.len() == i,
            out@.to_multiset() == v@.take(i as int).to_multiset(),
    {
        proof {
            assert(v@.take(i + 1).drop_last() =~= v@.take(i as int));
            vstd::seq_lib::to_multiset_build(v@.take(i as int), v@[i as int]);
            assert(v@.take(i + 1) =~= v@.take(i as int).push(v@[i as int]));
        }
        assert(sample_ok(v@[i as int]));
        insert_sorted(&mut out, v[i]);
    }
    proof {
        assert(v@.take(n as int) =~= v@);
    }
    *v = out;
}

} // verus!
