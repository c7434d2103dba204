//! Telemetry, and what the dashboard shows of it.

use lisa_rs::serve::metrics::{Metrics, Rate, Share};
use lisa_rs::serve::ui::{
    format_time, key_event, latest_ratio, latest_speed, Key, Ratio, Scroll, Speed, UiEvent,
    UiStep,
};

const MS: u64 = 1_000_000;

fn per_second(rate: Rate) -> f64 {
    rate.count as f64 / (rate.nanos as f64 / 1e9)
}

fn as_number(share: Share) -> f64 {
    share.part as f64 / share.whole as f64
}

#[test]
fn metrics_aggregate_correctly() {
    let mut m = Metrics::new(0);
    m.begin("prompt a".to_string(), 10, 0, 0);
    m.tick(5, 1);
    m.finish(100 * MS, 500 * MS, 4, 8, 6);
    m.begin("prompt b".to_string(), 20, 0, 2);
    m.tick(3, 3);
    m.finish(50 * MS, 300 * MS, 2, 4, 2);

    let agg = m.aggregates;
    assert_eq!(agg.total_queries, 2);
    assert_eq!(agg.total_completion_tokens, 8);
    assert_eq!(agg.total_prompt_tokens, 30);
    assert_eq!(agg.total_drafted_tokens, 12);
    assert_eq!(agg.total_accepted_drafts, 8);
    assert!((agg.prefill_nanos as f64 / 1e6 - 150.0).abs() < 1e-9);
    assert!((agg.decode_nanos as f64 / 1e6 - 800.0).abs() < 1e-9);

    let first = m.queries.first().unwrap();
    assert_eq!(first.prompt, "prompt b");
    assert_eq!(first.completion_tokens, 3);
    assert!((as_number(first.acceptance) - 0.5).abs() < 1e-9);
    assert!((as_number(first.draft_ratio) - 4.0 / 3.0).abs() < 1e-9);
    assert!((per_second(first.decode_rate) - 10.0).abs() < 1e-6);
}

#[test]
fn reset_clears_metrics() {
    let mut m = Metrics::new(0);
    m.begin("x".to_string(), 5, 0, 0);
    m.tick(2, 1);
    m.finish(10 * MS, 20 * MS, 1, 2, 1);
    assert_eq!(m.aggregates.total_queries, 1);
    m = Metrics::new(0);
    assert_eq!(m.aggregates.total_queries, 0);
}

#[test]
fn records_are_numbered_and_bounded() {
    let mut m = Metrics::new(7);
    assert_eq!(m.uptime_nanos(10), 3);
    for i in 0..50u64 {
        assert_eq!(m.begin(format!("p{i}"), 1, i, i), i);
        m.finish(MS, 200 * MS, 1, 0, 0);
    }
    assert_eq!(m.queries.len(), 40);
    assert_eq!(m.queries[0].prompt, "p49");
    assert_eq!(m.queries[39].prompt, "p10");
    assert!(m.active.is_none());
}

#[test]
fn failed_requests_are_counted() {
    let mut m = Metrics::new(0);
    m.fail(9);
    assert_eq!(m.aggregates.total_queries, 0);
    m.begin("p".into(), 9, 0, 0);
    m.fail(9);
    assert_eq!(m.aggregates.total_queries, 1);
    assert_eq!(m.aggregates.total_prompt_tokens, 9);
    assert_eq!(m.queries.len(), 1);
    assert!(m.queries[0].done);
}

#[test]
fn speed_glides_while_tokens_come() {
    let mut m = Metrics::new(0);
    m.begin("p".into(), 100, 0, 0);
    m.prefill_done(500 * MS);
    assert_eq!(per_second(m.active.as_ref().unwrap().prefill_rate), 200.0);
    m.tick(1, 1000 * MS);
    m.tick(3, 1100 * MS);
    assert!((per_second(m.active.as_ref().unwrap().decode_rate) - 20.0).abs() < 1e-9);
    m.tick(3, 1200 * MS);
    assert!((per_second(m.active.as_ref().unwrap().decode_rate) - 20.0).abs() < 1e-9);
    assert!(m.can_finish(500 * MS, 50 * MS, 2, 4, 1));
    m.finish(500 * MS, 50 * MS, 2, 4, 1);
    // Too short a time to be measured anew.
    assert!((per_second(m.queries[0].decode_rate) - 20.0).abs() < 1e-9);
}

#[test]
fn dashboard_shows_the_latest() {
    let mut m = Metrics::new(0);
    assert!(latest_speed(&m, Speed::Decode).is_none());
    assert!(latest_ratio(&m, Ratio::Acceptance).is_none());
    m.begin("p".into(), 10, 0, 0);
    m.tick(4, 1);
    m.finish(100 * MS, 200 * MS, 2, 8, 6);
    let speed = latest_speed(&m, Speed::Decode).unwrap();
    assert!((per_second(speed) - 20.0).abs() < 1e-9);
    let speed = latest_speed(&m, Speed::Prefill).unwrap();
    assert!((per_second(speed) - 100.0).abs() < 1e-9);
    let share = latest_ratio(&m, Ratio::Acceptance).unwrap();
    assert!((as_number(share) - 0.75).abs() < 1e-9);
    let share = latest_ratio(&m, Ratio::Draft).unwrap();
    assert!((as_number(share) - 2.0).abs() < 1e-9);
}

#[test]
fn keys_drive_the_dashboard() {
    let mut scroll = Scroll { rows: 0 };
    for (key, event) in [
        (Key::Char('q'), UiEvent::Quit),
        (Key::Esc, UiEvent::Quit),
        (Key::Char('r'), UiEvent::Reset),
        (Key::Up, UiEvent::Up),
        (Key::Char('k'), UiEvent::Up),
        (Key::Down, UiEvent::Down),
        (Key::Char('j'), UiEvent::Down),
        (Key::Char('x'), UiEvent::Nothing),
        (Key::Other, UiEvent::Nothing),
    ] {
        assert_eq!(key_event(key), event);
    }
    assert_eq!(scroll.on_event(UiEvent::Quit), UiStep::Quit);
    assert_eq!(scroll.on_event(UiEvent::Up), UiStep::Redraw);
    assert_eq!(scroll.on_event(UiEvent::Up), UiStep::Redraw);
    assert_eq!(scroll.rows, 2);
    assert_eq!(scroll.first_row(0), 0);
    assert_eq!(scroll.first_row(2), 1);
    assert_eq!(scroll.first_row(9), 2);
    for _ in 0..3 {
        assert_eq!(scroll.on_event(UiEvent::Down), UiStep::Redraw);
    }
    assert_eq!(scroll.rows, 0);
    assert_eq!(scroll.on_event(UiEvent::Reset), UiStep::ClearMetrics);
}

#[test]
fn times_are_told() {
    assert_eq!(format_time(100, 95_000), "5s");
    assert_eq!(format_time(100_000, 0), "100000s");
    assert_eq!(format_time(1, 5_000), "0s");
}
