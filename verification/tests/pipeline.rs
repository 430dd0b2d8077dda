use finoracle::date::Date;
use finoracle::document::{select_series, KindEntry, MetricEntry, SeriesDocument};
use finoracle::domain::{compute_domain, Domain};
use finoracle::mapper::{map_x, map_y, tenth, tick_x, year_step};
use finoracle::render::{chart_commands, RenderCommand};
use finoracle::series::{parse_series, sort_samples, RawPoint, RawSeries, Sample};

fn d(year: u16, month: u8, day: u8) -> Date {
    Date { year, month, day }
}

fn s(year: u16, month: u8, day: u8, value: i64) -> Sample {
    Sample { period: d(year, month, day), value }
}

fn revenue_doc() -> SeriesDocument {
    SeriesDocument {
        kinds: vec![KindEntry {
            name: "annual".to_string(),
            metrics: vec![MetricEntry {
                name: "revenue".to_string(),
                series: RawSeries::Points(vec![
                    RawPoint { period: b"2020-01-01".to_vec(), value: Some(10000) },
                    RawPoint { period: b"2022-01-01".to_vec(), value: Some(30000) },
                ]),
            }],
        }],
    }
}

#[test]
fn sorting_orders_by_period() {
    let mut v = vec![
        s(2022, 1, 1, 3),
        s(2019, 6, 1, 1),
        s(2021, 3, 15, 2),
        s(2019, 6, 1, 9),
    ];
    sort_samples(&mut v);
    for w in v.windows(2) {
        assert!(w[0].period.year <= w[1].period.year);
    }
    assert_eq!(v.len(), 4);
    assert_eq!(v[0].period, d(2019, 6, 1));
    assert_eq!(v[3].period, d(2022, 1, 1));
    let mut values = v.iter().map(|x| x.value).collect::<Vec<_>>();
    values.sort();
    assert_eq!(values, vec![1, 2, 3, 9]);
}

#[test]
fn empty_sequence_gets_the_fallback_domain() {
    let dom = compute_domain(&Vec::new());
    assert_eq!(
        dom,
        Domain {
            x_min: d(2000, 1, 1),
            x_max: d(2025, 7, 1),
            y_min: 0,
            y_max: 500000,
        }
    );
}

#[test]
fn domain_takes_the_extremes() {
    let mut v = vec![s(2021, 5, 1, -700), s(2019, 1, 1, 400), s(2020, 2, 2, 250)];
    sort_samples(&mut v);
    let dom = compute_domain(&v);
    assert_eq!(dom.x_min, d(2019, 1, 1));
    assert_eq!(dom.x_max, d(2021, 5, 1));
    assert_eq!(dom.y_min, -700);
    assert_eq!(dom.y_max, 400);
}

#[test]
fn single_sample_maps_to_the_left_edge() {
    // A one-sample sequence has a zero day span: x clamps to 0.10 * w.
    let x = map_x(0, 0, 1000);
    assert_eq!(x, 100_000);
    // And a zero value-axis maximum clamps y to 0.90 * h.
    let y = map_y(500, 500, 0, 1000);
    assert_eq!(y, 900_000);
}

#[test]
fn mapping_matches_the_plot_area_formulas() {
    assert_eq!(map_x(0, 731, 1000), 100_000);
    assert_eq!(map_x(731, 731, 1000), 950_000);
    assert_eq!(map_y(10000, 10000, 30000, 1000), 900_000);
    assert_eq!(map_y(30000, 10000, 30000, 1000), 300_000);
    // Negative maximum: the offset flips below the axis line.
    assert_eq!(map_y(-100, -300, -100, 1000), 900_000 + 1_800_000);
}

#[test]
fn tick_formulas_are_exact() {
    assert_eq!(year_step(2000, 2025), 5);
    assert_eq!(year_step(2020, 2022), 0);
    assert_eq!(year_step(2025, 2000), 0);
    assert_eq!(tick_x(2000, 2000, 2025, 1000), 75_000);
    assert_eq!(tick_x(2025, 2000, 2025, 1000), 925_000);
    assert_eq!(tenth(30000), 3000);
    assert_eq!(tenth(-35), -3);
}

#[test]
fn selector_finds_the_requested_series() {
    let doc = revenue_doc();
    let found = select_series(&doc, &"annual".to_string(), &"revenue".to_string());
    assert!(matches!(found, Some(RawSeries::Points(_))));
}

#[test]
fn selector_missing_keys_degrade_to_not_found() {
    let doc = revenue_doc();
    assert!(select_series(&doc, &"quarterly".to_string(), &"revenue".to_string()).is_none());
    assert!(select_series(&doc, &"annual".to_string(), &"grossMargin".to_string()).is_none());
    assert!(select_series(&doc, &"ANNUAL".to_string(), &"revenue".to_string()).is_none());
    let empty = SeriesDocument { kinds: Vec::new() };
    assert!(select_series(&empty, &"annual".to_string(), &"revenue".to_string()).is_none());
}

#[test]
fn end_to_end_two_sample_chart() {
    let doc = revenue_doc();
    let raw = select_series(&doc, &"annual".to_string(), &"revenue".to_string()).unwrap();
    let mut samples = parse_series(raw);
    sort_samples(&mut samples);
    let dom = compute_domain(&samples);
    assert_eq!(
        dom,
        Domain {
            x_min: d(2020, 1, 1),
            x_max: d(2022, 1, 1),
            y_min: 10000,
            y_max: 30000,
        }
    );

    let cmds = chart_commands(&samples, &dom, 1000, 1000);
    // Sizing, the L-shaped axis along the plot edges, then labels and path.
    assert_eq!(cmds[0], RenderCommand::SetSize { w: 1000, h: 1000 });
    assert_eq!(cmds[1], RenderCommand::SetLineWidth { mpx: 2000 });
    assert_eq!(cmds[2], RenderCommand::MoveTo { x: 100_000, y: 10_000 });
    assert_eq!(cmds[3], RenderCommand::LineTo { x: 100_000, y: 900_000 });
    assert_eq!(cmds[4], RenderCommand::LineTo { x: 950_000, y: 900_000 });
    assert_eq!(cmds[5], RenderCommand::Stroke);

    // Two years of span: no year labels. Ten value labels from 100.00 in
    // steps of 30.00, at x = 0.005 * w.
    assert_eq!(
        cmds[6],
        RenderCommand::FillText { text: b"100.00".to_vec(), x: 5_000, y: 910_000 }
    );
    assert_eq!(
        cmds[7],
        RenderCommand::FillText { text: b"130.00".to_vec(), x: 5_000, y: 815_000 }
    );
    assert_eq!(
        cmds[15],
        RenderCommand::FillText { text: b"370.00".to_vec(), x: 5_000, y: 55_000 }
    );

    // The polyline: 2020-01-01 maps to (100, 900), 2022-01-01 to (950, 300)
    // in whole pixels.
    assert_eq!(cmds[16], RenderCommand::MoveTo { x: 100_000, y: 900_000 });
    assert_eq!(cmds[17], RenderCommand::LineTo { x: 100_000, y: 900_000 });
    assert_eq!(cmds[18], RenderCommand::Stroke);
    assert_eq!(cmds[19], RenderCommand::LineTo { x: 950_000, y: 300_000 });
    assert_eq!(cmds[20], RenderCommand::Stroke);
    assert_eq!(cmds.len(), 21);
}

#[test]
fn year_labels_appear_with_a_wide_span() {
    let mut samples = vec![s(2000, 1, 1, 100), s(2025, 7, 1, 200)];
    sort_samples(&mut samples);
    let dom = compute_domain(&samples);
    let cmds = chart_commands(&samples, &dom, 1000, 1000);
    let labels: Vec<&RenderCommand> = cmds
        .iter()
        .filter(|c| matches!(c, RenderCommand::FillText { y: 950_000, .. }))
        .collect();
    // Step five: 2000, 2005, 2010, 2015, 2020, 2025.
    assert_eq!(labels.len(), 6);
    assert_eq!(
        labels[0],
        &RenderCommand::FillText { text: b"2000".to_vec(), x: 75_000, y: 950_000 }
    );
    assert_eq!(
        labels[5],
        &RenderCommand::FillText { text: b"2025".to_vec(), x: 925_000, y: 950_000 }
    );
}
