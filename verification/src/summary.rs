//! The terminal analytics summary: its lines, section by section, from the
//! statistics and the rendered floating-point figures.
use vstd::prelude::*;
use crate::text::{decimal, owned, push_decimal};
use crate::analytics::{AnalyticsResult, BucketStat, minutes_text, delta_text, day_label, day_name,
    format_minutes, format_delta_minutes, sessions_until_model, DURATION_TEXT_LIMIT, TREE_MIN_SESSIONS};
use crate::report::{hour_window, hour_window_text};

verus! {

broadcast use vstd::string::group_string_axioms;

/// The floating-point figures of the summary, rendered by the caller: the
/// distraction rate (one decimal) and whether it is above 30%, one score per
/// top focus hour (one decimal), the trend label and slope (two decimals)
/// when the trend model ran, and the quality rate (one decimal) and rule
/// lines when the quality model ran.
pub struct SummaryFigures {
    pub distraction_rate: String,
    pub high_distraction: bool,
    pub hour_scores: Vec<String>,
    pub trend: Option<(String, String)>,
    pub quality: Option<(String, Vec<String>)>,
}

/// The strings of a list, as character sequences.
pub open spec fn texts(v: Seq<String>) -> Seq<Seq<char>> {
    v.map_values(|s: String| s@)
}

/// The statistics are within the ranges the summary can write.
pub open spec fn summary_ready(r: &AnalyticsResult) -> bool {
    &&& r.week.current_seconds < DURATION_TEXT_LIMIT
    &&& r.week.previous_seconds < DURATION_TEXT_LIMIT
    &&& forall|i: int| 0 <= i < r.top_focus_hours@.len() ==> (#[trigger] r.top_focus_hours@[i]).bucket < 24
    &&& forall|i: int|
        0 <= i < r.best_days@.len() ==> (#[trigger] r.best_days@[i]).total_seconds < DURATION_TEXT_LIMIT
            && r.best_days@[i].sessions > 0
    &&& r.top_focus_hours@.len() <= 3
    &&& forall|i: int|
        0 <= i < r.last_7_day_totals@.len() ==> (#[trigger] r.last_7_day_totals@[i]).total_seconds
            < DURATION_TEXT_LIMIT
}

/// `lines` joined by line breaks.
pub open spec fn joined(lines: Seq<Seq<char>>) -> Seq<char>
    decreases lines.len(),
{
    if lines.len() == 0 {
        Seq::empty()
    } else if lines.len() == 1 {
        lines[0]
    } else {
        joined(lines.drop_last()) + "\n"@ + lines.last()
    }
}

/// The line of one top focus hour.
pub open spec fn hour_line(b: BucketStat, score: Seq<char>) -> Seq<char> {
    "  "@ + hour_window(b.bucket) + " (score: "@ + score + ")"@
}

/// The line of one best day.
pub open spec fn day_line(b: BucketStat) -> Seq<char> {
    "  "@ + day_label(b.bucket as int) + " (mean: "@ + minutes_text(
        b.total_seconds as int,
        b.sessions as nat,
        "<1m"@,
    ) + ")"@
}

/// The line for an empty ranking.
pub open spec fn not_enough_line() -> Seq<char> {
    "  Not enough completed sessions yet."@
}

/// The lines of the top focus hours section body.
pub open spec fn hour_lines(hours: Seq<BucketStat>, scores: Seq<Seq<char>>) -> Seq<Seq<char>> {
    if hours.len() == 0 {
        seq![not_enough_line()]
    } else {
        Seq::new(hours.len(), |i: int| hour_line(hours[i], scores[i]))
    }
}

/// The lines of the best days section body.
pub open spec fn day_lines(days: Seq<BucketStat>) -> Seq<Seq<char>> {
    if days.len() == 0 {
        seq![not_enough_line()]
    } else {
        Seq::new(days.len(), |i: int| day_line(days[i]))
    }
}

/// The line of the trend section.
pub open spec fn trend_line(trend: Option<(Seq<char>, Seq<char>)>) -> Seq<char> {
    match trend {
        Some((label, slope)) => "  "@ + label + " (slope: "@ + slope + " min/day)"@,
        None => "  Needs at least 7 calendar days of data — collecting data."@,
    }
}

/// The lines of the quality model section body.
pub open spec fn quality_lines(
    quality: Option<(Seq<char>, Seq<Seq<char>>)>,
    total_sessions: nat,
) -> Seq<Seq<char>> {
    match quality {
        Some((rate, rules)) => seq!["  Quality rate: "@ + rate + "%"@] + Seq::new(
            rules.len(),
            |i: int| "  "@ + rules[i],
        ),
        None => seq![
            "  Predictive model needs "@ + decimal(
                if total_sessions >= TREE_MIN_SESSIONS {
                    0
                } else {
                    (TREE_MIN_SESSIONS - total_sessions) as nat
                },
            ) + " more session(s) — collecting data."@,
        ],
    }
}

/// The view of the optional trend figures.
pub open spec fn trend_view(t: Option<(String, String)>) -> Option<(Seq<char>, Seq<char>)> {
    match t {
        Some((a, b)) => Some((a@, b@)),
        None => None,
    }
}

/// The view of the optional quality figures.
pub open spec fn quality_view(q: Option<(String, Vec<String>)>) -> Option<(Seq<char>, Seq<Seq<char>>)> {
    match q {
        Some((a, b)) => Some((a@, texts(b@))),
        None => None,
    }
}

/// All lines of the summary.
pub open spec fn summary_lines(r: &AnalyticsResult, f: &SummaryFigures) -> Seq<Seq<char>> {
    header_lines(r, f) + seq![""@, "Top focus hours:"@] + hour_lines(r.top_focus_hours@, texts(f.hour_scores@)) + seq![""@, "Best days:"@]
        + day_lines(r.best_days@) + seq![
        ""@,
        "Trend model:"@,
        trend_line(trend_view(f.trend)),
        ""@,
        "Decision tree quality model:"@,
    ] + quality_lines(quality_view(f.quality), r.total_sessions as nat)
}

/// Appends `line` to `lines`, keeping the text view in step.
fn push_line(lines: &mut Vec<String>, line: String)
    ensures
        texts(final(lines)@) == texts(old(lines)@).push(line@),
{
    lines.push(line);
    assert(texts(lines@) =~= texts(old(lines)@).push(line@));
}

/// Joins lines with line breaks.
pub fn join_lines(lines: &Vec<String>) -> (r: String)
    ensures
        r@ == joined(texts(lines@)),
{
    let mut out = String::new();
    let n = lines.len();
    let mut i: usize = 0;
    while i < n
        invariant
            n == lines@.len(),
            i <= n,
            out@ == joined(texts(lines@).subrange(0, i as int)),
        decreases n - i,
    {
        proof {
            let pre = texts(lines@).subrange(0, i + 1);
            assert(pre.drop_last() =~= texts(lines@).subrange(0, i as int));
        }
        if i > 0 {
            out.append("\n");
        }
        out.append(lines[i].as_str());
        proof {
            reveal_strlit("");
            if i == 0 {
                assert(out@ =~= joined(texts(lines@).subrange(0, 1)));
            }
        }
        i = i + 1;
    }
    assert(texts(lines@).subrange(0, n as int) =~= texts(lines@));
    out
}

/// The first lines of the summary: title, totals, distraction and this week.
pub open spec fn header_lines(r: &AnalyticsResult, f: &SummaryFigures) -> Seq<Seq<char>> {
    seq![
        "Focus Analytics"@,
        "==============="@,
        "Total sessions: "@ + decimal(r.total_sessions as nat),
        "Distraction rate: "@ + f.distraction_rate@ + "%"@ + (if f.high_distraction {
            " — high; protect your focus blocks"@
        } else {
            ""@
        }),
        "This week: "@ + minutes_text(r.week.current_seconds as int, 1, "<1m"@) + " ("@ + delta_text(
            r.week.current_seconds - r.week.previous_seconds,
        ) + ")"@,
    ]
}

fn push_header(lines: &mut Vec<String>, result: &AnalyticsResult, figures: &SummaryFigures)
    requires
        summary_ready(result),
    ensures
        texts(final(lines)@) == texts(old(lines)@) + header_lines(result, figures),
{
    let ghost start = texts(lines@);
    push_line(lines, owned("Focus Analytics"));
    push_line(lines, owned("==============="));
    let mut total = owned("Total sessions: ");
    push_decimal(&mut total, result.total_sessions as u128);
    push_line(lines, total);
    let mut rate = owned("Distraction rate: ");
    rate.append(figures.distraction_rate.as_str());
    rate.append("%");
    if figures.high_distraction {
        rate.append(" — high; protect your focus blocks");
    } else {
        rate.append("");
    }
    push_line(lines, rate);
    let mut week = owned("This week: ");
    let current = format_minutes(result.week.current_seconds as i128, 1);
    week.append(current.as_str());
    week.append(" (");
    let delta = format_delta_minutes(
        result.week.current_seconds as i128 - result.week.previous_seconds as i128,
    );
    week.append(delta.as_str());
    week.append(")");
    push_line(lines, week);
    assert(texts(lines@) =~= start + header_lines(result, figures));
}

fn push_hour_section(lines: &mut Vec<String>, result: &AnalyticsResult, figures: &SummaryFigures)
    requires
        summary_ready(result),
        figures.hour_scores@.len() == result.top_focus_hours@.len(),
    ensures
        texts(final(lines)@) == texts(old(lines)@) + hour_lines(
            result.top_focus_hours@,
            texts(figures.hour_scores@),
        ),
{
    let ghost head = texts(lines@);
    let hours = &result.top_focus_hours;
    if hours.len() == 0 {
        push_line(lines, owned("  Not enough completed sessions yet."));
        assert(texts(lines@) =~= head + hour_lines(result.top_focus_hours@, texts(figures.hour_scores@)));
        return;
    }
    let n = hours.len();
    let mut i: usize = 0;
    while i < n
        invariant
            n == hours@.len(),
            n == figures.hour_scores@.len(),
            i <= n,
            summary_ready(result),
            hours@ == result.top_focus_hours@,
            texts(lines@) == head + Seq::new(
                i as nat,
                |k: int| hour_line(hours@[k], texts(figures.hour_scores@)[k]),
            ),
        decreases n - i,
    {
        let b = hours[i];
        assert(b.bucket < 24);
        let mut line = owned("  ");
        let w = hour_window_text(b.bucket);
        line.append(w.as_str());
        line.append(" (score: ");
        line.append(figures.hour_scores[i].as_str());
        line.append(")");
        push_line(lines, line);
        assert(texts(lines@) =~= head + Seq::new(
            (i + 1) as nat,
            |k: int| hour_line(hours@[k], texts(figures.hour_scores@)[k]),
        ));
        i = i + 1;
    }
    assert(texts(lines@) =~= head + hour_lines(result.top_focus_hours@, texts(figures.hour_scores@)));
}

fn push_day_section(lines: &mut Vec<String>, result: &AnalyticsResult)
    requires
        summary_ready(result),
    ensures
        texts(final(lines)@) == texts(old(lines)@) + day_lines(result.best_days@),
{
    let ghost head = texts(lines@);
    let days = &result.best_days;
    if days.len() == 0 {
        push_line(lines, owned("  Not enough completed sessions yet."));
        assert(texts(lines@) =~= head + day_lines(result.best_days@));
        return;
    }
    let n = days.len();
    let mut i: usize = 0;
    while i < n
        invariant
            n == days@.len(),
            i <= n,
            summary_ready(result),
            days@ == result.best_days@,
            texts(lines@) == head + Seq::new(i as nat, |k: int| day_line(days@[k])),
        decreases n - i,
    {
        let b = days[i];
        assert(b.total_seconds < DURATION_TEXT_LIMIT && b.sessions > 0);
        let mut line = owned("  ");
        line.append(day_name(b.bucket));
        line.append(" (mean: ");
        let m = format_minutes(b.total_seconds as i128, b.sessions);
        line.append(m.as_str());
        line.append(")");
        push_line(lines, line);
        assert(texts(lines@) =~= head + Seq::new((i + 1) as nat, |k: int| day_line(days@[k])));
        i = i + 1;
    }
    assert(texts(lines@) =~= head + day_lines(result.best_days@));
}

fn trend_text(trend: &Option<(String, String)>) -> (r: String)
    ensures
        r@ == trend_line(trend_view(*trend)),
{
    match trend {
        Some((label, slope)) => {
            let mut line = owned("  ");
            line.append(label.as_str());
            line.append(" (slope: ");
            line.append(slope.as_str());
            line.append(" min/day)");
            line
        },
        None => owned("  Needs at least 7 calendar days of data — collecting data."),
    }
}

fn push_quality_section(lines: &mut Vec<String>, result: &AnalyticsResult, figures: &SummaryFigures)
    ensures
        texts(final(lines)@) == texts(old(lines)@) + quality_lines(
            quality_view(figures.quality),
            result.total_sessions as nat,
        ),
{
    let ghost head = texts(lines@);
    match &figures.quality {
        Some((rate_text, rules)) => {
            let mut line = owned("  Quality rate: ");
            line.append(rate_text.as_str());
            line.append("%");
            push_line(lines, line);
            let ghost head2 = texts(lines@);
            let n = rules.len();
            let mut i: usize = 0;
            while i < n
                invariant
                    n == rules@.len(),
                    i <= n,
                    texts(lines@) == head2 + Seq::new(i as nat, |k: int| "  "@ + texts(rules@)[k]),
                decreases n - i,
            {
                let mut l = owned("  ");
                l.append(rules[i].as_str());
                push_line(lines, l);
                assert(texts(lines@) =~= head2 + Seq::new(
                    (i + 1) as nat,
                    |k: int| "  "@ + texts(rules@)[k],
                ));
                i = i + 1;
            }
            assert(texts(lines@) =~= head + quality_lines(
                quality_view(figures.quality),
                result.total_sessions as nat,
            ));
        },
        None => {
            let mut line = owned("  Predictive model needs ");
            push_decimal(&mut line, sessions_until_model(result.total_sessions) as u128);
            line.append(" more session(s) — collecting data.");
            push_line(lines, line);
            assert(texts(lines@) =~= head + quality_lines(
                quality_view(figures.quality),
                result.total_sessions as nat,
            ));
        },
    }
}

/// The terminal analytics summary.
pub fn format_analytics(result: &AnalyticsResult, figures: &SummaryFigures) -> (r: String)
    requires
        summary_ready(result),
        figures.hour_scores@.len() == result.top_focus_hours@.len(),
    ensures
        r@ == joined(summary_lines(result, figures)),
{
    let mut lines: Vec<String> = Vec::new();
    push_header(&mut lines, result, figures);
    push_line(&mut lines, owned(""));
    push_line(&mut lines, owned("Top focus hours:"));
    push_hour_section(&mut lines, result, figures);
    push_line(&mut lines, owned(""));
    push_line(&mut lines, owned("Best days:"));
    push_day_section(&mut lines, result);
    push_line(&mut lines, owned(""));
    push_line(&mut lines, owned("Trend model:"));
    push_line(&mut lines, trend_text(&figures.trend));
    push_line(&mut lines, owned(""));
    push_line(&mut lines, owned("Decision tree quality model:"));
    push_quality_section(&mut lines, result, figures);
    assert(texts(lines@) =~= summary_lines(result, figures));
    join_lines(&lines)
}

} // verus!
