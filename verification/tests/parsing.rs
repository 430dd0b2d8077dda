use finoracle::date::{parse_date, format_date, sentinel, day_number_of, days_in_month_of, Date};
use finoracle::num::{clamp_value, fmt_fixed2, fmt_u64, VALUE_LIMIT};
use finoracle::series::{parse_series, points_of_samples, RawPoint, RawSeries, Sample};

fn d(year: u16, month: u8, day: u8) -> Date {
    Date { year, month, day }
}

#[test]
fn parse_date_accepts_the_fixed_pattern() {
    assert_eq!(parse_date(&b"2020-01-01".to_vec()), Some(d(2020, 1, 1)));
    assert_eq!(parse_date(&b"0001-12-31".to_vec()), Some(d(1, 12, 31)));
    assert_eq!(parse_date(&b"9999-06-15".to_vec()), Some(d(9999, 6, 15)));
}

#[test]
fn parse_date_rejects_out_of_range_fields() {
    assert_eq!(parse_date(&b"2020-13-01".to_vec()), None);
    assert_eq!(parse_date(&b"2020-00-10".to_vec()), None);
    assert_eq!(parse_date(&b"2020-01-32".to_vec()), None);
    assert_eq!(parse_date(&b"2020-04-31".to_vec()), None);
    assert_eq!(parse_date(&b"2020-01-00".to_vec()), None);
}

#[test]
fn parse_date_rejects_malformed_text() {
    assert_eq!(parse_date(&b"".to_vec()), None);
    assert_eq!(parse_date(&b"2020-1-1".to_vec()), None);
    assert_eq!(parse_date(&b"2020/01/01".to_vec()), None);
    assert_eq!(parse_date(&b"20x0-01-01".to_vec()), None);
    assert_eq!(parse_date(&b"2020-01-011".to_vec()), None);
}

#[test]
fn parse_date_knows_leap_years() {
    assert_eq!(parse_date(&b"2020-02-29".to_vec()), Some(d(2020, 2, 29)));
    assert_eq!(parse_date(&b"2021-02-29".to_vec()), None);
    assert_eq!(parse_date(&b"2000-02-29".to_vec()), Some(d(2000, 2, 29)));
    assert_eq!(parse_date(&b"1900-02-29".to_vec()), None);
    assert_eq!(days_in_month_of(&d(2024, 2, 1)), 29);
    assert_eq!(days_in_month_of(&d(2023, 2, 1)), 28);
}

#[test]
fn format_date_pads_to_four_two_two() {
    assert_eq!(format_date(&d(2020, 1, 1)), b"2020-01-01".to_vec());
    assert_eq!(format_date(&d(1, 12, 31)), b"0001-12-31".to_vec());
    assert_eq!(format_date(&d(987, 6, 5)), b"0987-06-05".to_vec());
}

#[test]
fn day_numbers_count_from_the_epoch() {
    assert_eq!(day_number_of(&sentinel()), 0);
    assert_eq!(day_number_of(&d(1970, 1, 2)), 1);
    assert_eq!(day_number_of(&d(1969, 12, 31)), -1);
    assert_eq!(day_number_of(&d(2000, 1, 1)), 10957);
    // 2020 is a leap year, so two years after 2020-01-01 is 731 days.
    assert_eq!(
        day_number_of(&d(2022, 1, 1)) - day_number_of(&d(2020, 1, 1)),
        731
    );
}

#[test]
fn parser_keeps_values_and_dates() {
    let raw = RawSeries::Points(vec![
        RawPoint { period: b"2020-01-01".to_vec(), value: Some(10000) },
        RawPoint { period: b"2022-01-01".to_vec(), value: Some(30000) },
    ]);
    let samples = parse_series(&raw);
    assert_eq!(
        samples,
        vec![
            Sample { period: d(2020, 1, 1), value: 10000 },
            Sample { period: d(2022, 1, 1), value: 30000 },
        ]
    );
}

#[test]
fn parser_falls_back_to_the_sentinel_date() {
    let raw = RawSeries::Points(vec![RawPoint {
        period: b"not a date".to_vec(),
        value: Some(42),
    }]);
    let samples = parse_series(&raw);
    assert_eq!(samples, vec![Sample { period: d(1970, 1, 1), value: 42 }]);
}

#[test]
fn parser_skips_points_without_a_value() {
    let raw = RawSeries::Points(vec![
        RawPoint { period: b"2020-01-01".to_vec(), value: Some(1) },
        RawPoint { period: b"2021-01-01".to_vec(), value: None },
        RawPoint { period: b"2022-01-01".to_vec(), value: Some(3) },
    ]);
    let samples = parse_series(&raw);
    assert_eq!(samples.len(), 2);
    assert_eq!(samples[0].value, 1);
    assert_eq!(samples[1].value, 3);
}

#[test]
fn parser_treats_placeholder_text_as_no_series() {
    let raw = RawSeries::Text("Computer says no".to_string());
    assert_eq!(parse_series(&raw).len(), 0);
    assert_eq!(parse_series(&RawSeries::Absent).len(), 0);
}

#[test]
fn parser_saturates_values_at_the_limit() {
    let raw = RawSeries::Points(vec![RawPoint {
        period: b"2020-01-01".to_vec(),
        value: Some(i64::MAX),
    }]);
    let samples = parse_series(&raw);
    assert_eq!(samples[0].value, VALUE_LIMIT);
    assert_eq!(clamp_value(i64::MIN), -VALUE_LIMIT);
    assert_eq!(clamp_value(7), 7);
}

#[test]
fn round_trip_returns_the_original_samples() {
    let samples = vec![
        Sample { period: d(2020, 2, 29), value: -12345 },
        Sample { period: d(1999, 12, 31), value: 0 },
        Sample { period: d(2022, 7, 1), value: VALUE_LIMIT },
    ];
    let points = points_of_samples(&samples);
    let reparsed = parse_series(&RawSeries::Points(points));
    assert_eq!(reparsed, samples);
}

#[test]
fn decimal_formatting_is_exact() {
    assert_eq!(fmt_u64(0), b"0".to_vec());
    assert_eq!(fmt_u64(2020), b"2020".to_vec());
    assert_eq!(fmt_u64(1000000), b"1000000".to_vec());
    assert_eq!(fmt_fixed2(10000), b"100.00".to_vec());
    assert_eq!(fmt_fixed2(12345), b"123.45".to_vec());
    assert_eq!(fmt_fixed2(5), b"0.05".to_vec());
    assert_eq!(fmt_fixed2(-50), b"-0.50".to_vec());
    assert_eq!(fmt_fixed2(-12345), b"-123.45".to_vec());
    assert_eq!(fmt_fixed2(500000), b"5000.00".to_vec());
}
