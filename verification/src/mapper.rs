//! Data space to pixel space. Coordinates are milli-pixels (thousandths of a
//! pixel) so the fractional plot-area formulas stay exact in integers.

use vstd::prelude::*;

verus! {

use vstd::arithmetic::div_mod::lemma_div_nonincreasing;
use crate::num::VALUE_LIMIT;

/// Largest canvas side length, in pixels, the mapper accepts.
pub const DIM_LIMIT: u32 = 100_000;

/// Largest day offset between two valid dates (0000-01-01 to 9999-12-31).
pub const MAX_DAY_SPAN: i64 = 3_652_424;

/// Horizontal pixel position (milli-pixels) of a sample `d` days past the
/// domain start, where `max_days` is the full day span of the domain:
/// `0.10 * w` plus `d / max_days` of the `0.85 * w` plot width. A degenerate
/// span maps to the plot's left edge instead of dividing by zero.
pub open spec fn spec_map_x(d: int, max_days: int, w: int) -> int {
    if max_days == 0 {
        100 * w
    } else {
        100 * w + (d * 850 * w) / max_days
    }
}

/// Vertical pixel position (milli-pixels) for a value: `0.90 * h` minus
/// `(v - y_min) / y_max` of the `0.90 * h` plot height, normalized against
/// `y_max` itself rather than the span `y_max - y_min`, as the chart has
/// always scaled. A zero `y_max` maps to the plot's bottom edge instead of
/// dividing by zero; a negative one flips the offset downward, as the
/// negative fraction did.
pub open spec fn spec_map_y(v: int, y_min: int, y_max: int, h: int) -> int {
    if y_max > 0 {
        900 * h - ((v - y_min) * 900 * h) / y_max
    } else if y_max < 0 {
        900 * h + ((v - y_min) * 900 * h) / (-y_max)
    } else {
        900 * h
    }
}

/// Coordinate clamp: the mapper is total, and a degenerate date range puts
/// every sample on the plot's left edge `0.10 * w`.
pub fn map_x(d: i64, max_days: i64, w: u32) -> (x: i64)
    requires
        0 <= d <= max_days <= MAX_DAY_SPAN,
        w <= DIM_LIMIT,
    ensures
        x == spec_map_x(d as int, max_days as int, w as int),
        max_days == 0 ==> x == 100 * w as int,
{
    if max_days == 0 {
        return 100 * (w as i64);
    }
    let m: u64 = (d as u64) * 850;
    proof {
        assert(m as int * (w as int) <= 3_104_560_400 * 100_000) by (nonlinear_arith)
            requires
                0 <= m <= 3_104_560_400,
                0 <= w <= 100_000,
        ;
    }
    let num: u64 = m * (w as u64);
    let q: u64 = num / (max_days as u64);
    proof {
        lemma_div_nonincreasing(num as int, max_days as int);
    }
    100 * (w as i64) + (q as i64)
}

/// Coordinate clamp: the mapper is total, and a zero value range puts every
/// sample on the plot's bottom edge `0.90 * h`.
pub fn map_y(v: i64, y_min: i64, y_max: i64, h: u32) -> (y: i64)
    requires
        -VALUE_LIMIT <= y_min <= v <= VALUE_LIMIT,
        -VALUE_LIMIT <= y_max <= VALUE_LIMIT,
        h <= DIM_LIMIT,
    ensures
        y == spec_map_y(v as int, y_min as int, y_max as int, h as int),
        y_max == 0 ==> y == 900 * h as int,
{
    let base: i64 = 900 * (h as i64);
    if y_max == 0 {
        return base;
    }
    let m: u64 = ((v - y_min) as u64) * 900;
    proof {
        assert(m as int * (h as int) <= 90_000_000_000_000 * 100_000) by (nonlinear_arith)
            requires
                0 <= m <= 90_000_000_000_000,
                0 <= h <= 100_000,
        ;
    }
    let num: u64 = m * (h as u64);
    if y_max > 0 {
        let q: u64 = num / (y_max as u64);
        proof {
            lemma_div_nonincreasing(num as int, y_max as int);
        }
        base - (q as i64)
    } else {
        let q: u64 = num / ((-y_max) as u64);
        proof {
            lemma_div_nonincreasing(num as int, -y_max as int);
        }
        base + (q as i64)
    }
}

/// Step between year tick labels: a fifth of the year span, in whole years;
/// zero means no labels are drawn.
pub open spec fn spec_year_step(y0: int, y1: int) -> int {
    if y0 <= y1 {
        (y1 - y0) / 5
    } else {
        0
    }
}

pub fn year_step(y0: u16, y1: u16) -> (step: u16)
    ensures
        step == spec_year_step(y0 as int, y1 as int),
{
    if y0 <= y1 {
        (y1 - y0) / 5
    } else {
        0
    }
}

/// Horizontal pixel position (milli-pixels) of a year tick label:
/// `(year - y0) / (y1 - y0)` of `0.85 * w`, shifted right by `0.075 * w`.
pub open spec fn spec_tick_x(year: int, y0: int, y1: int, w: int) -> int {
    ((year - y0) * 850 * w) / (y1 - y0) + 75 * w
}

pub fn tick_x(year: u16, y0: u16, y1: u16, w: u32) -> (x: i64)
    requires
        y0 <= year <= y1,
        y0 < y1,
        w <= DIM_LIMIT,
    ensures
        x == spec_tick_x(year as int, y0 as int, y1 as int, w as int),
{
    let m: u64 = ((year - y0) as u64) * 850;
    proof {
        assert(m as int * (w as int) <= 55_704_750 * 100_000) by (nonlinear_arith)
            requires
                0 <= m <= 55_704_750,
                0 <= w <= 100_000,
        ;
    }
    let num: u64 = m * (w as u64);
    let q: u64 = num / ((y1 - y0) as u64);
    proof {
        lemma_div_nonincreasing(num as int, (y1 - y0) as int);
    }
    (q as i64) + 75 * (w as i64)
}

/// A tenth of the value-axis maximum, rounded toward zero: the increment
/// between value tick labels (the span `y_max - y_min` is not used, as the
/// chart has always labelled).
pub open spec fn spec_tenth(y_max: int) -> int {
    if y_max >= 0 {
        y_max / 10
    } else {
        -((-y_max) / 10)
    }
}

pub fn tenth(y_max: i64) -> (t: i64)
    requires
        -VALUE_LIMIT <= y_max <= VALUE_LIMIT,
    ensures
        t == spec_tenth(y_max as int),
        -5_000_000_000 <= t <= 5_000_000_000,
{
    if y_max >= 0 {
        proof {
            vstd::arithmetic::div_mod::lemma_div_is_ordered(
                y_max as int,
                VALUE_LIMIT as int,
                10,
            );
        }
        y_max / 10
    } else {
        proof {
            vstd::arithmetic::div_mod::lemma_div_is_ordered(
                -y_max as int,
                VALUE_LIMIT as int,
                10,
            );
        }
        -(((-y_max) as u64 / 10) as i64)
    }
}

} // verus!
