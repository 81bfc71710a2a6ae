use focus_client_rust::analytics::{run_analytics, BucketStat, DayTotal};
use focus_client_rust::page::{report_page, PageParts, PAGE_PIECE_0, PAGE_PIECE_12};
use focus_client_rust::report::{
    generate_report, render_decision_tree, render_top_focus_windows, render_trend_chart, ReportFigures,
    TrendDirection,
};
use focus_client_rust::session::{LocalStamp, SessionRecord};

fn at(secs: i64) -> LocalStamp {
    LocalStamp { utc_seconds: secs, nanos: 0, offset_seconds: 0 }
}

#[test]
fn windows_list_is_ranked() {
    let hours = vec![
        BucketStat { bucket: 9, total_seconds: 3600, sessions: 2 },
        BucketStat { bucket: 23, total_seconds: 1800, sessions: 1 },
    ];
    let scores = vec!["60.0".to_string(), "30.0".to_string()];
    assert_eq!(
        render_top_focus_windows(&hours, &scores),
        "<div class=\"list-item\"><div><span class=\"rank\">#1</span><strong>9:00–10:00</strong></div><span class=\"muted\">score 60.0</span></div>\
<div class=\"list-item\"><div><span class=\"rank\">#2</span><strong>23:00–0:00</strong></div><span class=\"muted\">score 30.0</span></div>"
    );
}

#[test]
fn windows_list_when_empty() {
    assert_eq!(
        render_top_focus_windows(&vec![], &vec![]),
        "<div class=\"list-item\"><span class=\"muted\">Complete a few focus sessions to rank your strongest hours.</span></div>"
    );
}

#[test]
fn chart_rows() {
    let days = vec![DayTotal { day: 19786, total_seconds: 5400 }, DayTotal { day: 19787, total_seconds: 30 }];
    let labels = vec![("Mon <04>".to_string(), "100.0".to_string()), ("Tue 05".to_string(), "3.0".to_string())];
    assert_eq!(
        render_trend_chart(&days, &labels),
        "<div class=\"bar-row\"><span class=\"muted\">Mon &lt;04&gt;</span><div class=\"bar-track\"><div class=\"bar-fill\" style=\"width: 100.0%\"></div></div><span>1h 30m</span></div>\
<div class=\"bar-row\"><span class=\"muted\">Tue 05</span><div class=\"bar-track\"><div class=\"bar-fill\" style=\"width: 3.0%\"></div></div><span>&lt;1m</span></div>"
    );
    assert!(render_trend_chart(&vec![], &vec![]).contains("No data"));
}

#[test]
fn decision_tree_section() {
    assert_eq!(
        render_decision_tree(&None, 4),
        "<pre>Predictive model is collecting data. It needs 26 more completed session(s) before the decision tree activates.</pre>"
    );
    assert_eq!(
        render_decision_tree(&Some(("75.0".to_string(), "a < b".to_string())), 12),
        "<p class=\"muted\">Quality rate: <span class=\"accent\">75.0%</span></p><pre>a &lt; b</pre>"
    );
}

#[test]
fn page_is_filled_in_order() {
    let part = |s: &str| s.to_string();
    let parts = PageParts {
        weekly_hours: part("1.5h"),
        weekly_minutes: part("1h 30m"),
        weekly_sessions: part("3"),
        total_sessions: part("9"),
        weekly_delta: part("+10m"),
        distraction_rate: part("12.5"),
        top_focus_windows: part("[windows]"),
        trend_label: part("[label]"),
        trend_slope: part("[slope]"),
        trend_chart: part("[chart]"),
        decision_tree: part("[tree]"),
        recommendation: part("[advice]"),
    };
    let page = report_page(&parts);
    assert!(page.starts_with(PAGE_PIECE_0));
    assert!(page.ends_with(PAGE_PIECE_12));
    let order = ["1.5h", "1h 30m total", "[windows]", "[label]", "[slope]", "[chart]", "[tree]", "[advice]"];
    let mut from = 0;
    for piece in order {
        let at = page[from..].find(piece).expect("piece missing") + from;
        from = at + piece.len();
    }
    assert!(page.contains("distraction rate: 12.5%"));
    assert!(page.contains("<span class=\"value\">+10m</span>"));
    assert!(page.contains("<span class=\"context\">9 all-time logged</span>"));
}

#[test]
fn report_for_empty_log() {
    let result = run_analytics(&vec![], at(1709510400));
    let figures = ReportFigures {
        weekly_hours: "0.0h".to_string(),
        distraction_rate: "0.0".to_string(),
        high_distraction: false,
        hour_scores: vec![],
        trend: None,
        quality: None,
        chart: vec![(String::new(), "0.0".to_string()); result.last_7_day_totals.len()],
    };
    let page = generate_report(&result, &figures);
    assert!(page.contains("<span class=\"value\">0.0h</span>"));
    assert!(page.contains("<span class=\"context\">0m total</span>"));
    assert!(page.contains("<span class=\"value\">+0m</span>"));
    assert!(page.contains("Complete a few focus sessions to rank your strongest hours."));
    assert!(page.contains("Collecting enough daily history for trend detection"));
    assert!(page.contains("(needs 7 calendar days)"));
    assert!(page.contains("It needs 30 more completed session(s)"));
    assert!(page.contains("Start by completing one focus session."));
}

#[test]
fn report_with_trend_and_model() {
    let monday = 1709510400;
    let sessions: Vec<SessionRecord> = (0..3)
        .map(|i| SessionRecord::new(at(monday + 9 * 3600 + i * 86400), at(monday + 9 * 3600 + i * 86400 + 1800)))
        .collect();
    let result = run_analytics(&sessions, at(monday + 3 * 86400));
    let figures = ReportFigures {
        weekly_hours: "1.5h".to_string(),
        distraction_rate: "0.0".to_string(),
        high_distraction: false,
        hour_scores: vec!["90.0".to_string(); result.top_focus_hours.len()],
        trend: Some((TrendDirection::Up, "1.25".to_string())),
        quality: Some(("100.0".to_string(), "rules & more".to_string(), true)),
        chart: vec![("Day".to_string(), "50.0".to_string()); result.last_7_day_totals.len()],
    };
    let page = generate_report(&result, &figures);
    assert!(page.contains("<span class=\"context\">1h 30m total</span>"));
    assert!(page.contains("<span class=\"value\">3</span>"));
    assert!(page.contains("<span class=\"rank\">#1</span><strong>9:00–10:00</strong>"));
    assert!(page.contains("📈 Focus trending up <span class=\"accent\">(1.25 min/day)</span>"));
    assert!(page.contains("<pre>rules &amp; more</pre>"));
    assert!(page.contains("Your strongest current focus window is 9:00–10:00"));
}
