use focus_client_rust::analytics::{
    best_days, count_matches, daily_totals, day_name, format_delta_minutes, format_minutes, interrupted_count,
    label_session, last_seven_days, predicted_quality_windows, quality_count, quality_training_data,
    run_analytics, sessions_until_model, top_focus_hours, tree_rules_text, weekly_summary, SessionQuality,
};
use focus_client_rust::session::{LocalStamp, SessionRecord};
use focus_client_rust::summary::{format_analytics, SummaryFigures};

const MONDAY: i64 = 1709510400; // 2024-03-04 00:00 UTC, a Monday

fn at(secs: i64) -> LocalStamp {
    LocalStamp { utc_seconds: secs, nanos: 0, offset_seconds: 0 }
}

fn session(start: i64, seconds: i64) -> SessionRecord {
    SessionRecord::new(at(start), at(start + seconds))
}

fn hour(day: i64, h: i64) -> i64 {
    MONDAY + day * 86400 + h * 3600
}

#[test]
fn labels_sessions() {
    assert_eq!(label_session(&session(0, 1200)), SessionQuality::Quality);
    assert_eq!(label_session(&session(0, 1199)), SessionQuality::Shallow);
    assert_eq!(label_session(&session(0, 600)), SessionQuality::Shallow);
    assert_eq!(label_session(&session(0, 599)), SessionQuality::Distracted);
    assert_eq!(SessionQuality::from_label(SessionQuality::Shallow.as_label()), SessionQuality::Shallow);
    assert_eq!(SessionQuality::from_label(7), SessionQuality::Distracted);
}

#[test]
fn counts_interruptions_and_quality() {
    let s = vec![session(0, 100), session(5000, 3000), session(90000, 700)];
    assert_eq!(interrupted_count(&s), 1);
    assert_eq!(quality_count(&s), 1);
}

#[test]
fn ranks_focus_hours_by_total_time() {
    let s = vec![
        session(hour(0, 9), 1800),
        session(hour(1, 9), 1800),
        session(hour(0, 14), 3000),
        session(hour(2, 20), 3600),
        session(hour(0, 7), 600),
    ];
    let top = top_focus_hours(&s);
    let view: Vec<(u8, u128, u64)> = top.iter().map(|b| (b.bucket, b.total_seconds, b.sessions)).collect();
    assert_eq!(view, vec![(9, 3600, 2), (20, 3600, 1), (14, 3000, 1)]);
}

#[test]
fn ranks_days_by_mean_length() {
    let s = vec![
        session(hour(0, 9), 1000),
        session(hour(0, 10), 3000),
        session(hour(3, 9), 2500),
        session(hour(5, 9), 2000),
    ];
    let best = best_days(&s);
    let view: Vec<(u8, u128, u64)> = best.iter().map(|b| (b.bucket, b.total_seconds, b.sessions)).collect();
    assert_eq!(view, vec![(3, 2500, 1), (0, 4000, 2)]);
}

#[test]
fn empty_log_has_no_rankings() {
    let s: Vec<SessionRecord> = Vec::new();
    assert!(top_focus_hours(&s).is_empty());
    assert!(best_days(&s).is_empty());
    let r = run_analytics(&s, at(hour(2, 12)));
    assert_eq!(r.total_sessions, 0);
    assert_eq!(r.week.current_seconds, 0);
    assert!(r.daily_totals.is_empty());
    assert_eq!(r.last_7_day_totals.len(), 7);
}

#[test]
fn weekly_summary_splits_weeks() {
    let s = vec![
        session(hour(0, 0), 600),
        session(hour(2, 10), 1200),
        session(hour(-1, 23), 1800),
        session(hour(-7, 0), 300),
        session(hour(-8, 0), 5000),
    ];
    let w = weekly_summary(&s, at(hour(3, 12)));
    assert_eq!(w.current_seconds, 1800);
    assert_eq!(w.current_sessions, 2);
    assert_eq!(w.previous_seconds, 2100);
}

#[test]
fn daily_totals_are_in_day_order() {
    let s = vec![session(hour(2, 10), 100), session(hour(0, 10), 200), session(hour(2, 23), 50)];
    let d = daily_totals(&s);
    let first_day = (MONDAY / 86400) as i64;
    let view: Vec<(i64, u128)> = d.iter().map(|x| (x.day, x.total_seconds)).collect();
    assert_eq!(view, vec![(first_day, 200), (first_day + 2, 150)]);
}

#[test]
fn last_seven_days_fill_gaps_with_zero() {
    let s = vec![session(hour(2, 10), 100), session(hour(0, 10), 200)];
    let last = last_seven_days(&s, at(hour(3, 8)));
    let first_day = (MONDAY / 86400) as i64;
    let view: Vec<(i64, u128)> = last.iter().map(|x| (x.day, x.total_seconds)).collect();
    assert_eq!(
        view,
        vec![
            (first_day - 3, 0),
            (first_day - 2, 0),
            (first_day - 1, 0),
            (first_day, 200),
            (first_day + 1, 0),
            (first_day + 2, 100),
            (first_day + 3, 0)
        ]
    );
}

#[test]
fn training_data_and_accuracy() {
    let s = vec![session(hour(0, 9), 1500), session(hour(4, 22), 100)];
    let (features, labels) = quality_training_data(&s);
    assert_eq!(features, vec![(9, 0), (22, 4)]);
    assert_eq!(labels, vec![0, 2]);
    assert_eq!(count_matches(&vec![0, 1, 2], &vec![0, 2, 2, 0]), 2);
}

#[test]
fn quality_windows_in_week_order_capped_at_twelve() {
    let mut p = vec![2usize; 168];
    p[9] = 0;
    p[24 + 14] = 0;
    assert_eq!(predicted_quality_windows(&p), vec!["Mon 9:00".to_string(), "Tue 14:00".to_string()]);
    let all = vec![0usize; 168];
    let w = predicted_quality_windows(&all);
    assert_eq!(w.len(), 12);
    assert_eq!(w[0], "Mon 0:00");
    assert_eq!(w[11], "Mon 11:00");
}

#[test]
fn day_names() {
    assert_eq!(day_name(0), "Mon");
    assert_eq!(day_name(6), "Sun");
    assert_eq!(day_name(7), "Unknown");
}

#[test]
fn minutes_text() {
    assert_eq!(format_minutes(0, 1), "0m");
    assert_eq!(format_minutes(30, 1), "<1m");
    assert_eq!(format_minutes(60, 1), "1m");
    assert_eq!(format_minutes(89, 1), "1m");
    assert_eq!(format_minutes(90, 1), "2m");
    assert_eq!(format_minutes(3600, 1), "1h 0m");
    assert_eq!(format_minutes(3900, 1), "1h 5m");
    assert_eq!(format_minutes(-2700, 1), "-45m");
    assert_eq!(format_minutes(-5400, 1), "-1h 30m");
    assert_eq!(format_minutes(-20, 1), "0m");
    assert_eq!(format_minutes(4000, 2), "33m");
}

#[test]
fn delta_text() {
    assert_eq!(format_delta_minutes(8100), "+2h 15m vs last week");
    assert_eq!(format_delta_minutes(0), "+0m vs last week");
    assert_eq!(format_delta_minutes(-1800), "-30m vs last week");
    assert_eq!(format_delta_minutes(-20), "-<1m vs last week");
}

#[test]
fn model_countdown() {
    assert_eq!(sessions_until_model(0), 30);
    assert_eq!(sessions_until_model(28), 2);
    assert_eq!(sessions_until_model(45), 0);
}

#[test]
fn terminal_summary_for_a_small_log() {
    let s = vec![session(hour(0, 9), 1800), session(hour(2, 14), 300)];
    let stats = run_analytics(&s, at(hour(3, 12)));
    let figures = SummaryFigures {
        distraction_rate: "50.0".to_string(),
        high_distraction: true,
        hour_scores: vec!["30.0".to_string(), "5.0".to_string()],
        trend: None,
        quality: None,
    };
    let text = format_analytics(&stats, &figures);
    let expected = "Focus Analytics
===============
Total sessions: 2
Distraction rate: 50.0% — high; protect your focus blocks
This week: 35m (+35m vs last week)

Top focus hours:
  9:00–10:00 (score: 30.0)
  14:00–15:00 (score: 5.0)

Best days:
  Mon (mean: 30m)
  Wed (mean: 5m)

Trend model:
  Needs at least 7 calendar days of data — collecting data.

Decision tree quality model:
  Predictive model needs 28 more session(s) — collecting data.";
    assert_eq!(text, expected);
}

#[test]
fn terminal_summary_with_models() {
    let s: Vec<SessionRecord> = Vec::new();
    let stats = run_analytics(&s, at(hour(3, 12)));
    let figures = SummaryFigures {
        distraction_rate: "0.0".to_string(),
        high_distraction: false,
        hour_scores: vec![],
        trend: Some(("Focus is steady".to_string(), "0.10".to_string())),
        quality: Some(("40.0".to_string(), vec!["Decision tree trained.".to_string(), "Training accuracy: 90.0%.".to_string()])),
    };
    let text = format_analytics(&stats, &figures);
    assert!(text.contains("\nTop focus hours:\n  Not enough completed sessions yet.\n"));
    assert!(text.contains("\nTrend model:\n  Focus is steady (slope: 0.10 min/day)\n"));
    assert!(text.ends_with("Decision tree quality model:\n  Quality rate: 40.0%\n  Decision tree trained.\n  Training accuracy: 90.0%."));
    assert!(text.contains("This week: 0m (+0m vs last week)"));
}

#[test]
fn daily_totals_add_up_to_the_log() {
    let s = vec![
        session(hour(2, 9), 1500),
        session(hour(0, 23), 4000),
        session(hour(2, 14), 700),
        session(hour(5, 1), 90),
        session(hour(0, 8), 30),
    ];
    let listed: u128 = daily_totals(&s).iter().map(|d| d.total_seconds).sum();
    let logged: u128 = s.iter().map(|r| r.duration_seconds as u128).sum();
    assert_eq!(listed, logged);
    assert_eq!(listed, 6320);
}

#[test]
fn quality_model_notes() {
    assert_eq!(
        tree_rules_text("87.5", &vec![]),
        "Decision tree trained (Gini, max_depth=4, min_samples_split=5).\nTraining accuracy: 87.5%.\nNo hour/day window is currently predicted as Quality."
    );
    assert_eq!(
        tree_rules_text("90.0", &vec!["Mon 9:00".to_string(), "Tue 10:00".to_string()]),
        "Decision tree trained (Gini, max_depth=4, min_samples_split=5).\nTraining accuracy: 90.0%.\nPredicted quality windows: Mon 9:00, Tue 10:00"
    );
}
