//! The report page: its fixed HTML and styles, with slots for the rendered parts.
use vstd::prelude::*;

verus! {

/// Fixed text number 0 of the report page.
pub const PAGE_PIECE_0: &'static str = r#"<!doctype html>
<html lang="en">
<head>
  <meta charset="utf-8">
  <meta name="viewport" content="width=device-width, initial-scale=1">
  <title>Focus Health Report</title>
  <style>
    :root {
      --bg-void: #0b0e12;
      --surface-low: #1D2024;
      --surface-highest: #2B2D31;
      --tertiary-muted: #d1f3dc;
      --primary-accent: #bbdaff;
      --text-primary: #f6f8fb;
      --text-secondary: #b6beca;
      --text-muted: #7f8794;
      --on-primary: #07111d;
      --danger-soft: #ffcfcc;
    }

    * { box-sizing: border-box; }

    body {
      margin: 0;
      min-height: 100vh;
      background: var(--bg-void);
      color: var(--text-primary);
      font-family: Inter, system-ui, -apple-system, BlinkMacSystemFont, "Segoe UI", sans-serif;
    }

    main {
      width: min(1120px, calc(100vw - 32px));
      margin: 0 auto;
      padding: 56px 0 72px;
    }

    .hero {
      background: var(--surface-low);
      border-radius: 32px;
      padding: clamp(28px, 5vw, 56px);
      margin-bottom: 24px;
    }

    .eyebrow {
      color: var(--primary-accent);
      font-size: 0.78rem;
      font-weight: 700;
      letter-spacing: 0.18em;
      text-transform: uppercase;
      margin: 0 0 16px;
    }

    h1, h2, h3 {
      font-family: Epilogue, Inter, sans-serif;
      letter-spacing: -0.04em;
      margin: 0;
    }

    h1 {
      font-size: clamp(2.6rem, 8vw, 5.5rem);
      line-height: 0.9;
      max-width: 850px;
    }

    h2 {
      font-size: clamp(1.6rem, 4vw, 2.4rem);
      margin-bottom: 18px;
    }

    h3 {
      font-size: 1rem;
      letter-spacing: -0.02em;
    }

    .subhead {
      color: var(--text-secondary);
      max-width: 680px;
      margin: 24px 0 0;
      font-size: 1.05rem;
      line-height: 1.7;
    }

    .grid {
      display: grid;
      grid-template-columns: repeat(12, 1fr);
      gap: 24px;
    }

    .card {
      background: var(--surface-low);
      border-radius: 24px;
      padding: 24px;
    }

    .card.elevated,
    .metric,
    .list-item,
    .bar-row,
    pre {
      background: var(--surface-highest);
      border-radius: 18px;
    }

    .span-12 { grid-column: span 12; }
    .span-7 { grid-column: span 7; }
    .span-5 { grid-column: span 5; }
    .span-4 { grid-column: span 4; }

    .metrics {
      display: grid;
      grid-template-columns: repeat(3, minmax(0, 1fr));
      gap: 16px;
    }

    .metric {
      min-height: 118px;
      padding: 20px;
      display: flex;
      flex-direction: column;
      justify-content: space-between;
    }

    .metric .label {
      color: var(--text-muted);
      font-weight: 700;
      font-size: 0.76rem;
      letter-spacing: 0.12em;
      text-transform: uppercase;
    }

    .metric .value {
      color: var(--text-primary);
      font-family: Epilogue, Inter, sans-serif;
      font-size: 2rem;
      font-weight: 800;
      letter-spacing: -0.05em;
    }

    .metric .context {
      color: var(--text-secondary);
      font-size: 0.92rem;
    }

    .list {
      display: flex;
      flex-direction: column;
      gap: 16px;
    }

    .list-item {
      min-height: 64px;
      padding: 18px 20px;
      display: flex;
      align-items: center;
      justify-content: space-between;
      gap: 16px;
    }

    .rank {
      width: 38px;
      height: 38px;
      border-radius: 999px;
      display: inline-flex;
      align-items: center;
      justify-content: center;
      background: var(--primary-accent);
      color: var(--on-primary);
      font-weight: 800;
      margin-right: 14px;
    }

    .muted { color: var(--text-muted); }
    .accent { color: var(--primary-accent); }
    .danger { color: var(--danger-soft); }

    .bar-row {
      min-height: 56px;
      padding: 14px 16px;
      display: grid;
      grid-template-columns: 82px 1fr 72px;
      align-items: center;
      gap: 14px;
    }

    .bar-track {
      height: 18px;
      border-radius: 999px;
      background: var(--surface-low);
      overflow: hidden;
    }

    .bar-fill {
      min-width: 0;
      height: 100%;
      border-radius: 999px;
      background: var(--primary-accent);
    }

    pre {
      color: var(--text-secondary);
      padding: 20px;
      white-space: pre-wrap;
      overflow-x: auto;
      line-height: 1.6;
      font-size: 0.94rem;
      margin: 0;
    }

    .recommendation {
      background: var(--tertiary-muted);
      color: #07110b;
      border-radius: 24px;
      padding: 24px;
      font-weight: 600;
      line-height: 1.7;
    }

    @media (max-width: 860px) {
      .grid, .metrics { display: flex; flex-direction: column; }
      .span-12, .span-7, .span-5, .span-4 { grid-column: auto; }
      .bar-row { grid-template-columns: 68px 1fr 58px; }
    }
  </style>
</head>
<body>
  <main>
    <section class="hero">
      <p class="eyebrow">Focus Totem Intelligence</p>
      <h1>Focus Health Report</h1>
      <p class="subhead">A local, privacy-preserving report generated from your completed focus sessions. No cloud service, no JavaScript charting library, just your session log converted into actionable signals.</p>
    </section>

    <section class="grid">
      <article class="card span-12">
        <h2>Weekly Summary</h2>
        <div class="metrics">
          <div class="metric">
            <span class="label">Focused this week</span>
            <span class="value">"#;

/// Fixed text number 1 of the report page.
pub const PAGE_PIECE_1: &'static str = r#"</span>
            <span class="context">"#;

/// Fixed text number 2 of the report page.
pub const PAGE_PIECE_2: &'static str = r#" total</span>
          </div>
          <div class="metric">
            <span class="label">Sessions this week</span>
            <span class="value">"#;

/// Fixed text number 3 of the report page.
pub const PAGE_PIECE_3: &'static str = r#"</span>
            <span class="context">"#;

/// Fixed text number 4 of the report page.
pub const PAGE_PIECE_4: &'static str = r#" all-time logged</span>
          </div>
          <div class="metric">
            <span class="label">Delta vs last week</span>
            <span class="value">"#;

/// Fixed text number 5 of the report page.
pub const PAGE_PIECE_5: &'static str = r#"</span>
            <span class="context">distraction rate: "#;

/// Fixed text number 6 of the report page.
pub const PAGE_PIECE_6: &'static str = r#"%</span>
          </div>
        </div>
      </article>

      <article class="card span-7">
        <h2>Top Focus Windows</h2>
        <div class="list">"#;

/// Fixed text number 7 of the report page.
pub const PAGE_PIECE_7: &'static str = r#"</div>
      </article>

      <article class="card elevated span-5">
        <h2>Trend</h2>
        <p class="muted">"#;

/// Fixed text number 8 of the report page.
pub const PAGE_PIECE_8: &'static str = r#" <span class="accent">("#;

/// Fixed text number 9 of the report page.
pub const PAGE_PIECE_9: &'static str = r#")</span></p>
        <div class="list">"#;

/// Fixed text number 10 of the report page.
pub const PAGE_PIECE_10: &'static str = r#"</div>
      </article>

      <article class="card span-7">
        <h2>Decision Tree Rules</h2>
        "#;

/// Fixed text number 11 of the report page.
pub const PAGE_PIECE_11: &'static str = r#"
      </article>

      <article class="card span-5">
        <h2>AI Recommendation</h2>
        <div class="recommendation">"#;

/// Fixed text number 12 of the report page.
pub const PAGE_PIECE_12: &'static str = r#"</div>
      </article>
    </section>
  </main>
</body>
</html>"#;

/// The rendered pieces that fill the report page.
pub struct PageParts {
    pub weekly_hours: String,
    pub weekly_minutes: String,
    pub weekly_sessions: String,
    pub total_sessions: String,
    pub weekly_delta: String,
    pub distraction_rate: String,
    pub top_focus_windows: String,
    pub trend_label: String,
    pub trend_slope: String,
    pub trend_chart: String,
    pub decision_tree: String,
    pub recommendation: String,
}

/// The page parts as character sequences.
pub struct PagePartsView {
    pub weekly_hours: Seq<char>,
    pub weekly_minutes: Seq<char>,
    pub weekly_sessions: Seq<char>,
    pub total_sessions: Seq<char>,
    pub weekly_delta: Seq<char>,
    pub distraction_rate: Seq<char>,
    pub top_focus_windows: Seq<char>,
    pub trend_label: Seq<char>,
    pub trend_slope: Seq<char>,
    pub trend_chart: Seq<char>,
    pub decision_tree: Seq<char>,
    pub recommendation: Seq<char>,
}

/// The view of the page parts.
pub open spec fn parts_view(p: &PageParts) -> PagePartsView {
    PagePartsView {
        weekly_hours: p.weekly_hours@,
        weekly_minutes: p.weekly_minutes@,
        weekly_sessions: p.weekly_sessions@,
        total_sessions: p.total_sessions@,
        weekly_delta: p.weekly_delta@,
        distraction_rate: p.distraction_rate@,
        top_focus_windows: p.top_focus_windows@,
        trend_label: p.trend_label@,
        trend_slope: p.trend_slope@,
        trend_chart: p.trend_chart@,
        decision_tree: p.decision_tree@,
        recommendation: p.recommendation@,
    }
}

/// The report page with its parts filled in.
pub open spec fn page_text(p: PagePartsView) -> Seq<char> {
    PAGE_PIECE_0@ + p.weekly_hours + PAGE_PIECE_1@ + p.weekly_minutes + PAGE_PIECE_2@ + p.weekly_sessions + PAGE_PIECE_3@ + p.total_sessions + PAGE_PIECE_4@ + p.weekly_delta + PAGE_PIECE_5@ + p.distraction_rate + PAGE_PIECE_6@ + p.top_focus_windows + PAGE_PIECE_7@ + p.trend_label + PAGE_PIECE_8@ + p.trend_slope + PAGE_PIECE_9@ + p.trend_chart + PAGE_PIECE_10@ + p.decision_tree + PAGE_PIECE_11@ + p.recommendation + PAGE_PIECE_12@
}

/// Fills the report page.
pub fn report_page(parts: &PageParts) -> (r: String)
    ensures
        r@ == page_text(parts_view(parts)),
{
    let mut out = String::new();
    out.append(PAGE_PIECE_0);
    out.append(parts.weekly_hours.as_str());
    out.append(PAGE_PIECE_1);
    out.append(parts.weekly_minutes.as_str());
    out.append(PAGE_PIECE_2);
    out.append(parts.weekly_sessions.as_str());
    out.append(PAGE_PIECE_3);
    out.append(parts.total_sessions.as_str());
    out.append(PAGE_PIECE_4);
    out.append(parts.weekly_delta.as_str());
    out.append(PAGE_PIECE_5);
    out.append(parts.distraction_rate.as_str());
    out.append(PAGE_PIECE_6);
    out.append(parts.top_focus_windows.as_str());
    out.append(PAGE_PIECE_7);
    out.append(parts.trend_label.as_str());
    out.append(PAGE_PIECE_8);
    out.append(parts.trend_slope.as_str());
    out.append(PAGE_PIECE_9);
    out.append(parts.trend_chart.as_str());
    out.append(PAGE_PIECE_10);
    out.append(parts.decision_tree.as_str());
    out.append(PAGE_PIECE_11);
    out.append(parts.recommendation.as_str());
    out.append(PAGE_PIECE_12);
    assert(out@ =~= page_text(parts_view(parts)));
    out
}

} // verus!
