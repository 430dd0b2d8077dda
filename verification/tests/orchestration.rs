use finoracle::document::{KindEntry, MetricEntry, SeriesDocument};
use finoracle::domain::Domain;
use finoracle::render::RenderCommand;
use finoracle::series::{RawPoint, RawSeries};
use finoracle::state::{render_pass, ViewState};

fn doc_with(kind: &str, metric: &str, value: i64) -> SeriesDocument {
    SeriesDocument {
        kinds: vec![KindEntry {
            name: kind.to_string(),
            metrics: vec![MetricEntry {
                name: metric.to_string(),
                series: RawSeries::Points(vec![RawPoint {
                    period: b"2020-01-01".to_vec(),
                    value: Some(value),
                }]),
            }],
        }],
    }
}

#[test]
fn initial_state_is_annual_and_unloaded() {
    let s = ViewState::init();
    assert_eq!(s.active_symbol, "");
    assert_eq!(s.active_period_kind, "annual");
    assert_eq!(s.active_metric_annual, "");
    assert_eq!(s.active_metric_quarterly, "");
    assert_eq!(s.document.kinds.len(), 0);
    assert!(!s.loaded);
    assert_eq!(s.fetch_epoch, 0);
}

#[test]
fn metric_selection_is_scoped_per_period_kind() {
    let mut s = ViewState::init();
    s.select_metric("revenue".to_string());
    assert_eq!(s.active_metric_annual, "revenue");
    assert_eq!(s.active_metric_quarterly, "");

    s.select_period_kind("quarterly".to_string());
    s.select_metric("grossMargin".to_string());
    assert_eq!(s.active_metric_annual, "revenue");
    assert_eq!(s.active_metric_quarterly, "grossMargin");

    // An unknown tab name selects nothing.
    s.select_period_kind("monthly".to_string());
    s.select_metric("ebitda".to_string());
    assert_eq!(s.active_metric_annual, "revenue");
    assert_eq!(s.active_metric_quarterly, "grossMargin");
}

#[test]
fn fetch_failure_leaves_an_empty_document() {
    let mut s = ViewState::init();
    let epoch = s.select_symbol("AAPL".to_string());
    s.apply_fetch(epoch, None);
    assert!(s.loaded);
    assert_eq!(s.document.kinds.len(), 0);
}

#[test]
fn stale_fetch_is_discarded() {
    let mut s = ViewState::init();
    let epoch_a = s.select_symbol("AAA".to_string());
    let epoch_b = s.select_symbol("BBB".to_string());

    // B's response lands first, then A's arrives late: the state keeps B's.
    s.apply_fetch(epoch_b, Some(doc_with("annual", "revenue", 222)));
    s.apply_fetch(epoch_a, Some(doc_with("annual", "revenue", 111)));

    assert_eq!(s.active_symbol, "BBB");
    assert_eq!(s.document.kinds.len(), 1);
    match &s.document.kinds[0].metrics[0].series {
        RawSeries::Points(ps) => assert_eq!(ps[0].value, Some(222)),
        _ => panic!("expected a point series"),
    }
}

#[test]
fn current_fetch_replaces_the_document_wholesale() {
    let mut s = ViewState::init();
    let epoch = s.select_symbol("AAA".to_string());
    s.apply_fetch(epoch, Some(doc_with("annual", "revenue", 1)));
    let epoch = s.select_symbol("CCC".to_string());
    s.apply_fetch(epoch, Some(doc_with("quarterly", "ebit", 2)));
    assert_eq!(s.document.kinds.len(), 1);
    assert_eq!(s.document.kinds[0].name, "quarterly");
}

#[test]
fn unmeasured_container_skips_the_pass() {
    let s = ViewState::init();
    assert_eq!(render_pass(&s, 0, 500).commands.len(), 0);
    assert_eq!(render_pass(&s, 500, 0).commands.len(), 0);
}

#[test]
fn empty_state_renders_the_fallback_chart() {
    let s = ViewState::init();
    let rp = render_pass(&s, 1000, 1000);
    assert_eq!(rp.samples.len(), 0);
    assert_eq!(
        rp.domain,
        Domain {
            x_min: finoracle::date::Date { year: 2000, month: 1, day: 1 },
            x_max: finoracle::date::Date { year: 2025, month: 7, day: 1 },
            y_min: 0,
            y_max: 500000,
        }
    );
    // The canvas is sized to the container's width and 98% of its height.
    assert_eq!(rp.commands[0], RenderCommand::SetSize { w: 1000, h: 980 });
    // No samples: only the two axis lines are drawn, no polyline.
    let line_tos = rp
        .commands
        .iter()
        .filter(|c| matches!(c, RenderCommand::LineTo { .. }))
        .count();
    let move_tos = rp
        .commands
        .iter()
        .filter(|c| matches!(c, RenderCommand::MoveTo { .. }))
        .count();
    assert_eq!(line_tos, 2);
    assert_eq!(move_tos, 1);
    assert!(matches!(rp.commands.last(), Some(RenderCommand::FillText { .. })));
}

#[test]
fn selected_series_renders_through_the_state() {
    let mut s = ViewState::init();
    let epoch = s.select_symbol("AAPL".to_string());
    s.apply_fetch(epoch, Some(doc_with("annual", "revenue", 12345)));
    s.select_metric("revenue".to_string());
    let rp = render_pass(&s, 1000, 1000);
    assert_eq!(rp.samples.len(), 1);
    assert_eq!(rp.samples[0].value, 12345);
    assert_eq!(rp.domain.y_min, 12345);
    assert_eq!(rp.domain.y_max, 12345);
    // A single sample: degenerate day span, so its x clamps to 0.10 * w.
    assert!(rp
        .commands
        .iter()
        .any(|c| matches!(c, RenderCommand::LineTo { x: 100_000, .. })));

    // The quarterly tab has no series selected: an empty chart again.
    s.select_period_kind("quarterly".to_string());
    let rp = render_pass(&s, 1000, 1000);
    assert_eq!(rp.samples.len(), 0);
}
