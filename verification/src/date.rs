//! Calendar dates at day granularity, with a day-number view used for
//! ordering and for day-offset arithmetic in the coordinate mapper.

use vstd::prelude::*;

verus! {

use vstd::arithmetic::div_mod::{
    lemma_fundamental_div_mod,
    lemma_fundamental_div_mod_converse_div,
    lemma_div_denominator,
};

/// A date in the proleptic Gregorian calendar. Valid dates (`wf`) have a
/// four-digit year, so every valid date prints as `YYYY-MM-DD`.
#[derive(Clone, Copy, PartialEq, Eq, Structural, Debug)]
pub struct Date {
    pub year: u16,
    pub month: u8,
    pub day: u8,
}

pub open spec fn is_leap_year(y: int) -> bool {
    (y % 4 == 0 && y % 100 != 0) || y % 400 == 0
}

pub open spec fn days_in_month(y: int, m: int) -> int {
    if m == 2 {
        if is_leap_year(y) {
            29
        } else {
            28
        }
    } else if m == 4 || m == 6 || m == 9 || m == 11 {
        30
    } else {
        31
    }
}

impl Date {
    pub open spec fn wf(self) -> bool {
        &&& self.year <= 9999
        &&& 1 <= self.month <= 12
        &&& 1 <= self.day <= days_in_month(self.year as int, self.month as int)
    }

    /// Number of days since 1970-01-01 (negative before the epoch).
    /// Two valid dates compare, as dates, exactly as their day numbers do.
    pub open spec fn day_number(self) -> int {
        let y: int = if self.month <= 2 {
            self.year + 399
        } else {
            self.year + 400
        };
        let m: int = self.month as int;
        let era: int = y / 400;
        let yoe: int = y - era * 400;
        let mp: int = if m > 2 {
            m - 3
        } else {
            m + 9
        };
        let doy: int = (153 * mp + 2) / 5 + self.day - 1;
        let doe: int = yoe * 365 + yoe / 4 - yoe / 100 + doy;
        era * 146097 + doe - 865565
    }
}

/// Smallest day number of any valid date (0000-01-01).
pub open spec fn min_day_number() -> int {
    -719528
}

/// Largest day number of any valid date (9999-12-31).
pub open spec fn max_day_number() -> int {
    2932896
}

pub proof fn lemma_day_number_bounds(d: Date)
    requires
        d.wf(),
    ensures
        min_day_number() <= d.day_number() <= max_day_number(),
{
}

/// The date that unparseable period strings fall back to.
pub open spec fn sentinel_date() -> Date {
    Date { year: 1970, month: 1, day: 1 }
}

pub fn sentinel() -> (d: Date)
    ensures
        d == sentinel_date(),
        d.wf(),
        d.day_number() == 0,
{
    Date { year: 1970, month: 1, day: 1 }
}

pub fn day_number_of(d: &Date) -> (n: i64)
    requires
        d.wf(),
    ensures
        n == d.day_number(),
{
    let y: u64 = if d.month <= 2 {
        (d.year as u64) + 399
    } else {
        (d.year as u64) + 400
    };
    let m: u64 = d.month as u64;
    let era: u64 = y / 400;
    let yoe: u64 = y - era * 400;
    let mp: u64 = if m > 2 {
        m - 3
    } else {
        m + 9
    };
    let doy: u64 = (153 * mp + 2) / 5 + (d.day as u64) - 1;
    let doe: u64 = yoe * 365 + yoe / 4 - yoe / 100 + doy;
    ((era * 146097 + doe) as i64) - 865565
}

pub open spec fn is_digit(b: u8) -> bool {
    48 <= b <= 57
}

pub open spec fn digit_val(b: u8) -> int {
    b - 48
}

pub open spec fn digit_of(v: int) -> u8 {
    (48 + v % 10) as u8
}

/// What `parse_date` accepts: exactly `YYYY-MM-DD`, all four fields in range.
pub open spec fn spec_parse_date(s: Seq<u8>) -> Option<Date> {
    if s.len() == 10 && is_digit(s[0]) && is_digit(s[1]) && is_digit(s[2]) && is_digit(s[3])
        && s[4] == 45 && is_digit(s[5]) && is_digit(s[6]) && s[7] == 45 && is_digit(s[8])
        && is_digit(s[9]) {
        let y = digit_val(s[0]) * 1000 + digit_val(s[1]) * 100 + digit_val(s[2]) * 10 + digit_val(
            s[3],
        );
        let m = digit_val(s[5]) * 10 + digit_val(s[6]);
        let d = digit_val(s[8]) * 10 + digit_val(s[9]);
        let date = Date { year: y as u16, month: m as u8, day: d as u8 };
        if date.wf() {
            Some(date)
        } else {
            None
        }
    } else {
        None
    }
}

/// The ten bytes `YYYY-MM-DD` of a valid date, zero padded.
pub open spec fn spec_format_date(d: Date) -> Seq<u8> {
    seq![
        digit_of(d.year as int / 1000),
        digit_of(d.year as int / 100),
        digit_of(d.year as int / 10),
        digit_of(d.year as int),
        45u8,
        digit_of(d.month as int / 10),
        digit_of(d.month as int),
        45u8,
        digit_of(d.day as int / 10),
        digit_of(d.day as int),
    ]
}

/// Parses a period string in the fixed `YYYY-MM-DD` pattern; anything else,
/// including an out-of-range month or day, is `None`.
pub fn parse_date(s: &Vec<u8>) -> (r: Option<Date>)
    ensures
        r == spec_parse_date(s@),
        r is Some ==> r->Some_0.wf(),
{
    if s.len() != 10 {
        return None;
    }
    let b0 = s[0];
    let b1 = s[1];
    let b2 = s[2];
    let b3 = s[3];
    let b5 = s[5];
    let b6 = s[6];
    let b8 = s[8];
    let b9 = s[9];
    if !(48 <= b0 && b0 <= 57 && 48 <= b1 && b1 <= 57 && 48 <= b2 && b2 <= 57 && 48 <= b3 && b3
        <= 57 && s[4] == 45 && 48 <= b5 && b5 <= 57 && 48 <= b6 && b6 <= 57 && s[7] == 45 && 48
        <= b8 && b8 <= 57 && 48 <= b9 && b9 <= 57) {
        return None;
    }
    let y: u16 = (b0 - 48) as u16 * 1000 + (b1 - 48) as u16 * 100 + (b2 - 48) as u16 * 10 + (b3
        - 48) as u16;
    let m: u8 = (b5 - 48) * 10 + (b6 - 48);
    let d: u8 = (b8 - 48) * 10 + (b9 - 48);
    let date = Date { year: y, month: m, day: d };
    if m < 1 || m > 12 {
        return None;
    }
    let dim = days_in_month_of(&date);
    if 1 <= d && d <= dim {
        Some(date)
    } else {
        None
    }
}

/// Number of days in the date's month (the date's day field is not read).
pub fn days_in_month_of(d: &Date) -> (n: u8)
    requires
        1 <= d.month <= 12,
    ensures
        n == days_in_month(d.year as int, d.month as int),
{
    if d.month == 2 {
        if (d.year % 4 == 0 && d.year % 100 != 0) || d.year % 400 == 0 {
            29
        } else {
            28
        }
    } else if d.month == 4 || d.month == 6 || d.month == 9 || d.month == 11 {
        30
    } else {
        31
    }
}

pub fn format_date(d: &Date) -> (out: Vec<u8>)
    requires
        d.wf(),
    ensures
        out@ == spec_format_date(*d),
{
    let mut out: Vec<u8> = Vec::new();
    out.push(48 + (d.year / 1000) as u8);
    out.push(48 + ((d.year / 100) % 10) as u8);
    out.push(48 + ((d.year / 10) % 10) as u8);
    out.push(48 + (d.year % 10) as u8);
    out.push(45);
    out.push(48 + (d.month / 10));
    out.push(48 + (d.month % 10));
    out.push(45);
    out.push(48 + (d.day / 10));
    out.push(48 + (d.day % 10));
    proof {
        assert(out@ =~= spec_format_date(*d));
    }
    out
}

/// Calendar order: by year, then month, then day.
pub open spec fn date_lt(a: Date, b: Date) -> bool {
    ||| a.year < b.year
    ||| (a.year == b.year && a.month < b.month)
    ||| (a.year == b.year && a.month == b.month && a.day < b.day)
}

/// The year shifted so that January and February count as the tail of the
/// previous March-to-February span; `day_number` is lexicographic in
/// (`shifted_year`, `span_day`).
spec fn shifted_year(d: Date) -> int {
    if d.month <= 2 {
        d.year + 399
    } else {
        d.year + 400
    }
}

/// Months from March, 0 to 11.
spec fn mp_of(d: Date) -> int {
    if d.month > 2 {
        d.month - 3
    } else {
        d.month + 9
    }
}

/// Day offset, 0 to 365, within the shifted year.
spec fn span_day(d: Date) -> int {
    (153 * mp_of(d) + 2) / 5 + d.day - 1
}

/// Days before the start of a shifted year, counted from the era scheme's
/// origin.
spec fn year_days(y: int) -> int {
    (y / 400) * 146097 + (y % 400) * 365 + (y % 400) / 4 - (y % 400) / 100
}

proof fn lemma_day_number_decomposes(d: Date)
    requires
        d.wf(),
    ensures
        d.day_number() == year_days(shifted_year(d)) + span_day(d) - 865565,
{
    let y = shifted_year(d);
    lemma_fundamental_div_mod(y, 400);
}

/// A quotient grows by one exactly when the divisor starts dividing.
proof fn lemma_div_step(r: int, d: int)
    requires
        0 <= r,
        0 < d,
    ensures
        (r + 1) % d == 0 ==> (r + 1) / d == r / d + 1,
        (r + 1) % d != 0 ==> (r + 1) / d == r / d,
        (r + 1) % d != 0 ==> (r + 1) % d == r % d + 1,
{
    let a = r / d;
    let b = r % d;
    lemma_fundamental_div_mod(r, d);
    vstd::arithmetic::div_mod::lemma_mod_pos_bound(r, d);
    if b == d - 1 {
        assert(r + 1 == (a + 1) * d + 0) by (nonlinear_arith)
            requires
                r == a * d + b,
                b == d - 1,
        ;
        lemma_fundamental_div_mod_converse_div(r + 1, d, a + 1, 0);
        vstd::arithmetic::div_mod::lemma_fundamental_div_mod_converse_mod(r + 1, d, a + 1, 0);
    } else {
        lemma_fundamental_div_mod_converse_div(r + 1, d, a, b + 1);
        vstd::arithmetic::div_mod::lemma_fundamental_div_mod_converse_mod(r + 1, d, a, b + 1);
    }
}

/// From one shifted year to the next, `year_days` grows by the length of
/// the span between them: 366 when its February is a leap one, else 365.
proof fn lemma_year_days_step(y: int)
    requires
        399 <= y,
    ensures
        year_days(y + 1) == year_days(y) + 365 + (if is_leap_year(y - 399) {
            1int
        } else {
            0int
        }),
{
    let q = y / 400;
    let r = y % 400;
    let yr = y - 399;
    lemma_fundamental_div_mod(y, 400);
    vstd::arithmetic::div_mod::lemma_mod_pos_bound(y, 400);
    if r == 399 {
        assert(y + 1 == (q + 1) * 400 + 0) by (nonlinear_arith)
            requires
                y == 400 * q + r,
                r == 399,
        ;
        lemma_fundamental_div_mod_converse_div(y + 1, 400, q + 1, 0);
        vstd::arithmetic::div_mod::lemma_fundamental_div_mod_converse_mod(y + 1, 400, q + 1, 0);
        assert(yr == 400 * q) by (nonlinear_arith)
            requires
                y == 400 * q + r,
                r == 399,
                yr == y - 399,
        ;
        vstd::arithmetic::div_mod::lemma_mod_multiples_basic(q, 400);
        assert(yr % 400 == 0);
        assert(yr == 4 * (100 * q)) by (nonlinear_arith)
            requires
                yr == 400 * q,
        ;
        vstd::arithmetic::div_mod::lemma_mod_multiples_basic(100 * q, 4);
        assert(yr % 4 == 0);
        assert(is_leap_year(yr));
        assert(year_days(y + 1) == (q + 1) * 146097);
        assert((q + 1) * 146097 == q * 146097 + 146097) by (nonlinear_arith);
        assert(year_days(y) == q * 146097 + 399 * 365 + 99 - 3);
    } else {
        assert(y + 1 == q * 400 + (r + 1));
        lemma_fundamental_div_mod_converse_div(y + 1, 400, q, r + 1);
        vstd::arithmetic::div_mod::lemma_fundamental_div_mod_converse_mod(y + 1, 400, q, r + 1);
        assert((y + 1) / 400 == q && (y + 1) % 400 == r + 1);
        // The calendar year whose February ends this span leaves the same
        // remainders as r + 1 modulo 4, 100 and 400.
        assert(yr == 400 * (q - 1) + (r + 1));
        assert(yr == 4 * (100 * (q - 1)) + (r + 1)) by (nonlinear_arith)
            requires
                yr == 400 * (q - 1) + (r + 1),
        ;
        assert(yr == 100 * (4 * (q - 1)) + (r + 1)) by (nonlinear_arith)
            requires
                yr == 400 * (q - 1) + (r + 1),
        ;
        vstd::arithmetic::div_mod::lemma_mod_multiples_vanish(q - 1, r + 1, 400);
        vstd::arithmetic::div_mod::lemma_mod_multiples_vanish(100 * (q - 1), r + 1, 4);
        vstd::arithmetic::div_mod::lemma_mod_multiples_vanish(4 * (q - 1), r + 1, 100);
        assert(yr % 400 == (r + 1) % 400);
        assert(yr % 4 == (r + 1) % 4);
        assert(yr % 100 == (r + 1) % 100);
        vstd::arithmetic::div_mod::lemma_small_mod((r + 1) as nat, 400nat);
        assert(yr % 400 == r + 1);
        lemma_div_step(r, 4);
        lemma_div_step(r, 100);
        if (r + 1) % 100 == 0 {
            let k = (r + 1) / 100;
            lemma_fundamental_div_mod(r + 1, 100);
            assert(r + 1 == 4 * (25 * k)) by (nonlinear_arith)
                requires
                    r + 1 == 100 * k + 0,
            ;
            vstd::arithmetic::div_mod::lemma_mod_multiples_basic(25 * k, 4);
            assert((r + 1) % 4 == 0);
        }
    }
}

/// `year_days` grows by at least 365 days a shifted year.
proof fn lemma_year_days_monotone(ya: int, yb: int)
    requires
        399 <= ya <= yb,
    ensures
        year_days(ya) + 365 * (yb - ya) <= year_days(yb),
    decreases yb - ya,
{
    if ya < yb {
        lemma_year_days_monotone(ya, yb - 1);
        lemma_year_days_step(yb - 1);
    }
}

/// Bounds of the day offset within a shifted year, and what its largest
/// value says about the date.
proof fn lemma_span_day_bounds(d: Date)
    requires
        d.wf(),
    ensures
        0 <= span_day(d) <= 365,
        span_day(d) == 365 ==> d.month == 2 && d.day == 29 && is_leap_year(d.year as int),
{
}

/// Within one shifted year, calendar order is span-day order.
proof fn lemma_span_day_strict(a: Date, b: Date)
    requires
        a.wf(),
        b.wf(),
        shifted_year(a) == shifted_year(b),
        date_lt(a, b),
    ensures
        span_day(a) < span_day(b),
{
    let ma = mp_of(a);
    let mb = mp_of(b);
    if ma == mb {
    } else {
        assert(ma < mb);
        assert((153 * (ma + 1) + 2) / 5 <= (153 * mb + 2) / 5) by {
            vstd::arithmetic::div_mod::lemma_div_is_ordered(153 * (ma + 1) + 2, 153 * mb + 2, 5);
        }
        assert(a.day - 1 + (153 * ma + 2) / 5 < (153 * (ma + 1) + 2) / 5);
    }
}

/// Calendar order of valid dates is exactly day-number order, so equal day
/// numbers mean the same date.
pub proof fn lemma_day_number_orders_dates(a: Date, b: Date)
    requires
        a.wf(),
        b.wf(),
    ensures
        date_lt(a, b) <==> a.day_number() < b.day_number(),
        a.day_number() == b.day_number() <==> (a.year == b.year && a.month == b.month && a.day
            == b.day),
{
    if date_lt(a, b) {
        lemma_day_number_strict(a, b);
    } else if date_lt(b, a) {
        lemma_day_number_strict(b, a);
    }
}

proof fn lemma_day_number_strict(a: Date, b: Date)
    requires
        a.wf(),
        b.wf(),
        date_lt(a, b),
    ensures
        a.day_number() < b.day_number(),
{
    lemma_day_number_decomposes(a);
    lemma_day_number_decomposes(b);
    lemma_span_day_bounds(a);
    lemma_span_day_bounds(b);
    let ya = shifted_year(a);
    let yb = shifted_year(b);
    if ya == yb {
        lemma_span_day_strict(a, b);
    } else {
        assert(ya < yb);
        lemma_year_days_monotone(ya, yb);
        assert(365 <= 365 * (yb - ya));
        if span_day(a) == 365 {
            lemma_year_days_step(ya);
            assert(is_leap_year(ya - 399));
            lemma_year_days_monotone(ya + 1, yb);
        }
    }
}

/// The four decimal digits of a number below ten thousand recompose to it.
proof fn lemma_digits_recompose(y: int)
    requires
        0 <= y <= 9999,
    ensures
        1000 * (y / 1000) + 100 * ((y / 100) % 10) + 10 * ((y / 10) % 10) + y % 10 == y,
        (y / 1000) % 10 == y / 1000,
{
    let q1 = y / 10;
    let q2 = q1 / 10;
    let q3 = q2 / 10;
    lemma_fundamental_div_mod(y, 10);
    lemma_fundamental_div_mod(q1, 10);
    lemma_fundamental_div_mod(q2, 10);
    lemma_div_denominator(y, 10, 10);
    lemma_div_denominator(y, 100, 10);
    assert(q2 == y / 100);
    assert(q3 == y / 1000);
}

/// Formatting a valid date and parsing the result gives the date back.
pub proof fn lemma_date_round_trip(d: Date)
    requires
        d.wf(),
    ensures
        spec_parse_date(spec_format_date(d)) == Some(d),
{
    let s = spec_format_date(d);
    let y = d.year as int;
    let m = d.month as int;
    let dy = d.day as int;
    lemma_digits_recompose(y);
    lemma_fundamental_div_mod(m, 10);
    lemma_fundamental_div_mod(dy, 10);
    assert(digit_val(s[0]) * 1000 + digit_val(s[1]) * 100 + digit_val(s[2]) * 10 + digit_val(s[3])
        == y);
    assert(digit_val(s[5]) * 10 + digit_val(s[6]) == m);
    assert(digit_val(s[8]) * 10 + digit_val(s[9]) == dy);
}

} // verus!
