use focus_client_rust::report::{ai_recommendation, format_minutes, format_signed_delta, hour_window_text, html_escape, trend_label, TrendDirection};

#[test]
fn escapes_html() {
    assert_eq!(html_escape("<b>\"Tom\" & 'Jerry'</b>"), "&lt;b&gt;&quot;Tom&quot; &amp; &#39;Jerry&#39;&lt;/b&gt;");
    assert_eq!(html_escape("plain"), "plain");
    assert_eq!(html_escape("&amp;"), "&amp;amp;");
}

#[test]
fn page_durations() {
    assert_eq!(format_minutes(45, 1), "&lt;1m");
    assert_eq!(format_minutes(7200, 1), "2h 0m");
    assert_eq!(format_signed_delta(600), "+10m");
    assert_eq!(format_signed_delta(-45), "-&lt;1m");
    assert_eq!(format_signed_delta(-3660), "-1h 1m");
}

#[test]
fn hour_windows_wrap_at_midnight() {
    assert_eq!(hour_window_text(9), "9:00–10:00");
    assert_eq!(hour_window_text(23), "23:00–0:00");
}

#[test]
fn trend_labels() {
    assert_eq!(trend_label(TrendDirection::Up), "📈 Focus trending up");
    assert_eq!(trend_label(TrendDirection::Steady), "Focus is steady");
}

#[test]
fn recommendation_for_empty_log() {
    assert!(ai_recommendation(0, None, false, None, None).starts_with("Start by completing one focus session."));
}

#[test]
fn recommendation_sentences() {
    let r = ai_recommendation(12, Some(9), true, Some(TrendDirection::Down), Some(true));
    assert_eq!(
        r,
        "Your strongest current focus window is 9:00–10:00; protect that slot for deep work first. \
Your interruption rate is high, so shorten your next block slightly and remove one obvious trigger before starting. \
The trend model is declining; schedule a recovery block early in the week instead of waiting for motivation. \
The quality model is confident enough to keep prioritizing your existing routine."
    );
    let r2 = ai_recommendation(3, None, false, None, None);
    assert_eq!(
        r2,
        "Keep logging sessions so your best focus windows can stabilize. \
Your interruption rate is under control; keep the ritual consistent and increase session length gradually. \
Trend detection will unlock after seven calendar days of history."
    );
}

fn unescape(s: &str) -> String {
    s.replace("&lt;", "<")
        .replace("&gt;", ">")
        .replace("&quot;", "\"")
        .replace("&#39;", "'")
        .replace("&amp;", "&")
}

#[test]
fn escaping_round_trips() {
    for text in ["a & b", "<i>&amp;</i>", "\"it's\"", "no specials here", "&lt;"] {
        let e = html_escape(text);
        assert_eq!(unescape(&e), text);
        assert!(!e.contains('<') && !e.contains('>') && !e.contains('"') && !e.contains('\''));
        assert_eq!(e == text, !text.contains(['&', '<', '>', '"', '\'']));
    }
}
