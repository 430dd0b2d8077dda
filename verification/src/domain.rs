//! Axis domains: the date range and value range of a sample sequence, with
//! the fixed fallback domain for an empty sequence.

use vstd::prelude::*;

verus! {

use crate::date::Date;
use crate::num::VALUE_LIMIT;
use crate::series::{Sample, all_samples_ok, sample_ok, sorted_by_period, le_period};

/// Data-space bounds used to scale one render pass; recomputed fresh each
/// pass, never mutated in place.
#[derive(Clone, Copy, PartialEq, Eq, Structural, Debug)]
pub struct Domain {
    pub x_min: Date,
    pub x_max: Date,
    /// Fixed-point, hundredths of a unit.
    pub y_min: i64,
    pub y_max: i64,
}

/// The domain rendered when no samples exist:
/// 2000-01-01 to 2025-07-01 and 0.00 to 5000.00.
pub open spec fn fallback_domain() -> Domain {
    Domain {
        x_min: Date { year: 2000, month: 1, day: 1 },
        x_max: Date { year: 2025, month: 7, day: 1 },
        y_min: 0,
        y_max: 500000,
    }
}

/// The fallback domain as a value.
pub fn fallback() -> (d: Domain)
    ensures
        d == fallback_domain(),
{
    Domain {
        x_min: Date { year: 2000, month: 1, day: 1 },
        x_max: Date { year: 2025, month: 7, day: 1 },
        y_min: 0,
        y_max: 500000,
    }
}

pub open spec fn domain_wf(d: Domain) -> bool {
    &&& d.x_min.wf()
    &&& d.x_max.wf()
    &&& d.x_min.day_number() <= d.x_max.day_number()
    &&& -(VALUE_LIMIT as int) <= d.y_min <= d.y_max <= VALUE_LIMIT as int
}

pub open spec fn is_min_value(s: Seq<Sample>, v: int) -> bool {
    &&& exists|i: int| 0 <= i < s.len() && (#[trigger] s[i]).value == v
    &&& forall|i: int| 0 <= i < s.len() ==> v <= (#[trigger] s[i]).value
}

pub open spec fn is_max_value(s: Seq<Sample>, v: int) -> bool {
    &&& exists|i: int| 0 <= i < s.len() && (#[trigger] s[i]).value == v
    &&& forall|i: int| 0 <= i < s.len() ==> v >= (#[trigger] s[i]).value
}

/// Domain Calculator: min and max period and value of a sorted sequence;
/// an empty sequence gets exactly the fallback domain.
pub fn compute_domain(samples: &Vec<Sample>) -> (dom: Domain)
    requires
        sorted_by_period(samples@),
        all_samples_ok(samples@),
    ensures
        domain_wf(dom),
        samples@.len() == 0 ==> dom == fallback_domain(),
        samples@.len() > 0 ==> {
            &&& dom.x_min == samples@[0].period
            &&& dom.x_max == samples@.last().period
            &&& is_min_value(samples@, dom.y_min as int)
            &&& is_max_value(samples@, dom.y_max as int)
        },
{
    let n = samples.len();
    if n == 0 {
        return Domain {
            x_min: Date { year: 2000, month: 1, day: 1 },
            x_max: Date { year: 2025, month: 7, day: 1 },
            y_min: 0,
            y_max: 500000,
        };
    }
    assert(sample_ok(samples@[0]));
    let mut y_min: i64 = samples[0].value;
    let mut y_max: i64 = samples[0].value;
    proof {
        assert(samples@.take(1)[0] == samples@[0]);
    }
    for i in 1..n
        invariant
            n == samples@.len(),
            all_samples_ok(samples@),
            1 <= i <= n,
            is_min_value(samples@.take(i as int), y_min as int),
            is_max_value(samples@.take(i as int), y_max as int),
    {
        assert(sample_ok(samples@[i as int]));
        let v = samples[i].value;
        if v < y_min {
            y_min = v;
        }
        if v > y_max {
            y_max = v;
        }
        proof {
            let t1 = samples@.take(i + 1);
            let t0 = samples@.take(i as int);
            assert(t1[i as int] == samples@[i as int]);
            assert(forall|k: int| 0 <= k < i ==> t1[k] == #[trigger] t0[k]);
            assert(forall|k: int| 0 <= k < i + 1 ==> (#[trigger] t1[k]).value >= y_min as int);
            assert(forall|k: int| 0 <= k < i + 1 ==> (#[trigger] t1[k]).value <= y_max as int);
            assert(is_min_value(t1, y_min as int));
            assert(is_max_value(t1, y_max as int));
        }
    }
    proof {
        assert(samples@.take(n as int) =~= samples@);
        assert(le_period(samples@[0], samples@[n - 1]));
    }
    Domain { x_min: samples[0].period, x_max: samples[n - 1].period, y_min, y_max }
}

} // verus!
