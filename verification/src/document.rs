//! The nested series document and the selector that picks one raw series
//! out of it.

use vstd::prelude::*;

verus! {

use crate::series::RawSeries;

/// One metric of a reporting cadence: its name and its raw value.
pub struct MetricEntry {
    pub name: String,
    pub series: RawSeries,
}

/// One reporting cadence ("annual", "quarterly", ...) with its metrics, in
/// the order the document listed them.
pub struct KindEntry {
    pub name: String,
    pub metrics: Vec<MetricEntry>,
}

/// The full fetched document: period kinds in document order. Lookups are
/// by exact, case-sensitive key; order matters only for tab display.
pub struct SeriesDocument {
    pub kinds: Vec<KindEntry>,
}

impl SeriesDocument {
    /// The empty document that failed or superseded fetches fall back to.
    pub fn empty() -> (doc: SeriesDocument)
        ensures
            doc.kinds@.len() == 0,
    {
        SeriesDocument { kinds: Vec::new() }
    }
}

/// First entry with the given period-kind name, if any.
pub open spec fn spec_find_kind(kinds: Seq<KindEntry>, name: Seq<char>) -> Option<KindEntry>
    decreases kinds.len(),
{
    if kinds.len() == 0 {
        None
    } else if kinds.first().name@ == name {
        Some(kinds.first())
    } else {
        spec_find_kind(kinds.drop_first(), name)
    }
}

/// First entry with the given metric name, if any.
pub open spec fn spec_find_metric(metrics: Seq<MetricEntry>, name: Seq<char>) -> Option<
    MetricEntry,
>
    decreases metrics.len(),
{
    if metrics.len() == 0 {
        None
    } else if metrics.first().name@ == name {
        Some(metrics.first())
    } else {
        spec_find_metric(metrics.drop_first(), name)
    }
}

/// What the selector returns: the raw series at `doc[kind][metric]`, or
/// `None` when either key is absent.
pub open spec fn spec_select(doc: SeriesDocument, kind: Seq<char>, metric: Seq<char>) -> Option<
    RawSeries,
> {
    match spec_find_kind(doc.kinds@, kind) {
        None => None,
        Some(ke) => match spec_find_metric(ke.metrics@, metric) {
            None => None,
            Some(me) => Some(me.series),
        },
    }
}

fn find_kind<'a>(kinds: &'a Vec<KindEntry>, name: &String) -> (r: Option<&'a KindEntry>)
    ensures
        match r {
            Some(ke) => spec_find_kind(kinds@, name@) == Some(*ke),
            None => spec_find_kind(kinds@, name@) is None,
        },
{
    let n = kinds.len();
    proof {
        assert(kinds@.skip(0) =~= kinds@);
    }
    for i in 0..n
        invariant
            n == kinds@.len(),
            spec_find_kind(kinds@, name@) == spec_find_kind(kinds@.skip(i as int), name@),
    {
        proof {
            assert(kinds@.skip(i as int).first() == kinds@[i as int]);
            assert(kinds@.skip(i as int).drop_first() =~= kinds@.skip(i + 1));
        }
        if kinds[i].name.eq(name) {
            return Some(&kinds[i]);
        }
    }
    proof {
        assert(kinds@.skip(n as int) =~= Seq::<KindEntry>::empty());
    }
    None
}

fn find_metric<'a>(metrics: &'a Vec<MetricEntry>, name: &String) -> (r: Option<&'a MetricEntry>)
    ensures
        match r {
            Some(me) => spec_find_metric(metrics@, name@) == Some(*me),
            None => spec_find_metric(metrics@, name@) is None,
        },
{
    let n = metrics.len();
    proof {
        assert(metrics@.skip(0) =~= metrics@);
    }
    for i in 0..n
        invariant
            n == metrics@.len(),
            spec_find_metric(metrics@, name@) == spec_find_metric(metrics@.skip(i as int), name@),
    {
        proof {
            assert(metrics@.skip(i as int).first() == metrics@[i as int]);
            assert(metrics@.skip(i as int).drop_first() =~= metrics@.skip(i + 1));
        }
        if metrics[i].name.eq(name) {
            return Some(&metrics[i]);
        }
    }
    proof {
        assert(metrics@.skip(n as int) =~= Seq::<MetricEntry>::empty());
    }
    None
}

/// Series Selector: the raw series under the requested period kind and
/// metric, or the not-found marker `None` when either key is absent — a
/// missing key degrades to an empty renderable series, never an error.
pub fn select_series<'a>(doc: &'a SeriesDocument, kind: &String, metric: &String) -> (r: Option<
    &'a RawSeries,
>)
    ensures
        match r {
            Some(rs) => spec_select(*doc, kind@, metric@) == Some(*rs),
            None => spec_select(*doc, kind@, metric@) is None,
        },
{
    match find_kind(&doc.kinds, kind) {
        None => None,
        Some(ke) => match find_metric(&ke.metrics, metric) {
            None => None,
            Some(me) => Some(&me.series),
        },
    }
}

} // verus!
