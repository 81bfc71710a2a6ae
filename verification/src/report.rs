//! Text of the Focus Health Report: HTML escaping, durations for the page,
//! the focus-window wording and the recommendation paragraph.
use vstd::prelude::*;
use crate::text::{decimal, has_prefix, owned, push_char, push_decimal};
use crate::analytics::{minutes_text, minutes_text_exec, AnalyticsResult, BucketStat, DayTotal,
    sessions_until_model, DURATION_TEXT_LIMIT, TREE_MIN_SESSIONS};
use crate::page::{PageParts, PagePartsView, page_text, parts_view, report_page};

verus! {

broadcast use vstd::string::group_string_axioms;

/// The direction of the focus trend, read from the fitted slope.
#[derive(Clone, Copy, Debug, PartialEq, Eq, Structural)]
pub enum TrendDirection {
    /// Slope above half a minute per day.
    Up,
    /// Slope below minus half a minute per day.
    Down,
    /// Anything in between.
    Steady,
}

/// The HTML escape of one character.
pub open spec fn escape_char(c: char) -> Seq<char> {
    if c == '&' {
        "&amp;"@
    } else if c == '<' {
        "&lt;"@
    } else if c == '>' {
        "&gt;"@
    } else if c == '"' {
        "&quot;"@
    } else if c == '\'' {
        "&#39;"@
    } else {
        seq![c]
    }
}

/// `s` with `&`, `<`, `>`, `"` and `'` replaced by their HTML entities.
pub open spec fn escaped(s: Seq<char>) -> Seq<char>
    decreases s.len(),
{
    if s.len() == 0 {
        Seq::empty()
    } else {
        escaped(s.drop_last()) + escape_char(s.last())
    }
}

/// Escapes text for inclusion in HTML.
pub fn html_escape(input: &str) -> (r: String)
    ensures
        r@ == escaped(input@),
{
    let n = input.unicode_len();
    let mut out = String::new();
    let mut i: usize = 0;
    while i < n
        invariant
            n == input@.len(),
            i <= n,
            out@ == escaped(input@.subrange(0, i as int)),
        decreases n - i,
    {
        let c = input.get_char(i);
        proof {
            assert(input@.subrange(0, i + 1).drop_last() =~= input@.subrange(0, i as int));
        }
        if c == '&' {
            out.append("&amp;");
        } else if c == '<' {
            out.append("&lt;");
        } else if c == '>' {
            out.append("&gt;");
        } else if c == '"' {
            out.append("&quot;");
        } else if c == '\'' {
            out.append("&#39;");
        } else {
            push_char(&mut out, c);
        }
        assert(out@ =~= escaped(input@.subrange(0, i + 1)));
        i = i + 1;
    }
    assert(input@.subrange(0, n as int) =~= input@);
    out
}

/// The characters that HTML escaping removes.
pub open spec fn is_html_special(c: char) -> bool {
    c == '<' || c == '>' || c == '"' || c == '\''
}

proof fn lemma_escaped_has_no_special(s: Seq<char>)
    ensures
        forall|k: int| 0 <= k < escaped(s).len() ==> !is_html_special(#[trigger] escaped(s)[k]),
    decreases s.len(),
{
    reveal_strlit("&amp;");
    reveal_strlit("&lt;");
    reveal_strlit("&gt;");
    reveal_strlit("&quot;");
    reveal_strlit("&#39;");
    if s.len() > 0 {
        lemma_escaped_has_no_special(s.drop_last());
        let a = escaped(s.drop_last());
        let b = escape_char(s.last());
        assert forall|k: int| 0 <= k < escaped(s).len() implies !is_html_special(
            #[trigger] escaped(s)[k],
        ) by {
            if k < a.len() {
                assert(escaped(s)[k] == a[k]);
            } else {
                assert(escaped(s)[k] == b[k - a.len()]);
            }
        }
    }
}

/// Escaped text holds no `<`, `>`, `"` or `'`, so it can never open a tag or
/// close an attribute.
pub proof fn law_escaped_text_is_inert(s: Seq<char>)
    ensures
        forall|k: int| 0 <= k < escaped(s).len() ==> !is_html_special(#[trigger] escaped(s)[k]),
{
    lemma_escaped_has_no_special(s);
}

/// Whether `c` is one of the five characters that HTML escaping replaces.
pub open spec fn is_escaped_char(c: char) -> bool {
    c == '&' || is_html_special(c)
}

/// The entity for `&`.
pub open spec fn amp_entity() -> Seq<char> {
    seq!['&', 'a', 'm', 'p', ';']
}

/// The entity for `<`.
pub open spec fn lt_entity() -> Seq<char> {
    seq!['&', 'l', 't', ';']
}

/// The entity for `>`.
pub open spec fn gt_entity() -> Seq<char> {
    seq!['&', 'g', 't', ';']
}

/// The entity for `"`.
pub open spec fn quot_entity() -> Seq<char> {
    seq!['&', 'q', 'u', 'o', 't', ';']
}

/// The entity for `'`.
pub open spec fn apos_entity() -> Seq<char> {
    seq!['&', '#', '3', '9', ';']
}

/// One of the five entities that HTML escaping writes starts `s`.
pub open spec fn starts_with_entity(s: Seq<char>) -> bool {
    ||| has_prefix(s, amp_entity())
    ||| has_prefix(s, lt_entity())
    ||| has_prefix(s, gt_entity())
    ||| has_prefix(s, quot_entity())
    ||| has_prefix(s, apos_entity())
}

/// Undoes HTML escaping in one left-to-right pass: each of the five entities
/// becomes its character, every other character stays.
pub open spec fn unescaped(s: Seq<char>) -> Seq<char>
    decreases s.len(),
{
    if s.len() == 0 {
        Seq::empty()
    } else if has_prefix(s, amp_entity()) {
        seq!['&'] + unescaped(s.skip(5))
    } else if has_prefix(s, lt_entity()) {
        seq!['<'] + unescaped(s.skip(4))
    } else if has_prefix(s, gt_entity()) {
        seq!['>'] + unescaped(s.skip(4))
    } else if has_prefix(s, quot_entity()) {
        seq!['"'] + unescaped(s.skip(6))
    } else if has_prefix(s, apos_entity()) {
        seq!['\''] + unescaped(s.skip(5))
    } else {
        seq![s[0]] + unescaped(s.skip(1))
    }
}

proof fn lemma_entities()
    ensures
        "&amp;"@ == amp_entity(),
        "&lt;"@ == lt_entity(),
        "&gt;"@ == gt_entity(),
        "&quot;"@ == quot_entity(),
        "&#39;"@ == apos_entity(),
{
    reveal_strlit("&amp;");
    reveal_strlit("&lt;");
    reveal_strlit("&gt;");
    reveal_strlit("&quot;");
    reveal_strlit("&#39;");
    assert("&amp;"@ =~= amp_entity());
    assert("&lt;"@ =~= lt_entity());
    assert("&gt;"@ =~= gt_entity());
    assert("&quot;"@ =~= quot_entity());
    assert("&#39;"@ =~= apos_entity());
}

proof fn lemma_escaped_front(c: char, t: Seq<char>)
    ensures
        escaped(seq![c] + t) == escape_char(c) + escaped(t),
    decreases t.len(),
{
    if t.len() == 0 {
        assert((seq![c] + t).drop_last() =~= Seq::<char>::empty());
        assert(escaped(Seq::<char>::empty()) =~= Seq::<char>::empty());
        assert(escaped(seq![c] + t) =~= escape_char(c) + escaped(t));
    } else {
        lemma_escaped_front(c, t.drop_last());
        assert((seq![c] + t).drop_last() =~= seq![c] + t.drop_last());
        assert((seq![c] + t).last() == t.last());
        assert(escaped(seq![c] + t) =~= escape_char(c) + escaped(t));
    }
}

proof fn lemma_unescape_one(c: char, rest: Seq<char>)
    ensures
        unescaped(escape_char(c) + rest) == seq![c] + unescaped(rest),
{
    lemma_entities();
    let e = escape_char(c);
    let s = e + rest;
    assert(s.skip(e.len() as int) =~= rest);
    assert(s.subrange(0, e.len() as int) =~= e);
    assert(s[0] == e[0]);
    if is_escaped_char(c) {
        assert(s[1] == e[1]);
    } else {
        assert(s[0] == c);
    }
    assert(has_prefix(s, amp_entity()) ==> s[1] == 'a' && s[0] == '&');
    assert(has_prefix(s, lt_entity()) ==> s[1] == 'l' && s[0] == '&');
    assert(has_prefix(s, gt_entity()) ==> s[1] == 'g' && s[0] == '&');
    assert(has_prefix(s, quot_entity()) ==> s[1] == 'q' && s[0] == '&');
    assert(has_prefix(s, apos_entity()) ==> s[1] == '#' && s[0] == '&');
    if !is_escaped_char(c) {
        assert(s.skip(1) =~= rest);
    }
}

proof fn lemma_unescape_escaped(s: Seq<char>)
    ensures
        unescaped(escaped(s)) == s,
    decreases s.len(),
{
    if s.len() > 0 {
        let t = s.drop_first();
        assert(s =~= seq![s[0]] + t);
        lemma_escaped_front(s[0], t);
        lemma_unescape_one(s[0], escaped(t));
        lemma_unescape_escaped(t);
    } else {
        assert(escaped(s) =~= Seq::<char>::empty());
    }
}

proof fn lemma_escaped_len(s: Seq<char>)
    ensures
        escaped(s).len() >= s.len(),
        (exists|k: int| 0 <= k < s.len() && is_escaped_char(#[trigger] s[k])) ==> escaped(s).len()
            > s.len(),
        (forall|k: int| 0 <= k < s.len() ==> !is_escaped_char(#[trigger] s[k])) ==> escaped(s)
            == s,
    decreases s.len(),
{
    reveal_strlit("&amp;");
    reveal_strlit("&lt;");
    reveal_strlit("&gt;");
    reveal_strlit("&quot;");
    reveal_strlit("&#39;");
    if s.len() > 0 {
        let p = s.drop_last();
        lemma_escaped_len(p);
        if exists|k: int| 0 <= k < s.len() && is_escaped_char(#[trigger] s[k]) {
            let k = choose|k: int| 0 <= k < s.len() && is_escaped_char(#[trigger] s[k]);
            if k < p.len() {
                assert(p[k] == s[k]);
            }
        }
        if forall|k: int| 0 <= k < s.len() ==> !is_escaped_char(#[trigger] s[k]) {
            assert(forall|k: int| 0 <= k < p.len() ==> #[trigger] p[k] == s[k]);
            assert(!is_escaped_char(s[s.len() - 1]));
            assert(escaped(s) =~= s);
        }
    } else {
        assert(escaped(s) =~= s);
    }
}

proof fn lemma_ampersands_start_entities(s: Seq<char>)
    ensures
        forall|k: int|
            0 <= k < escaped(s).len() && #[trigger] escaped(s)[k] == '&' ==> starts_with_entity(
                escaped(s).skip(k),
            ),
    decreases s.len(),
{
    lemma_entities();
    if s.len() > 0 {
        lemma_ampersands_start_entities(s.drop_last());
        let a = escaped(s.drop_last());
        let b = escape_char(s.last());
        let e = escaped(s);
        assert(e == a + b);
        assert forall|k: int| 0 <= k < e.len() && #[trigger] e[k] == '&' implies starts_with_entity(
            e.skip(k),
        ) by {
            if k < a.len() {
                assert(a[k] == e[k]);
                assert(e.skip(k) =~= a.skip(k) + b);
                let x = a.skip(k);
                let y = e.skip(k);
                if has_prefix(x, amp_entity()) {
                    assert(y.subrange(0, 5) =~= x.subrange(0, 5));
                } else if has_prefix(x, lt_entity()) {
                    assert(y.subrange(0, 4) =~= x.subrange(0, 4));
                } else if has_prefix(x, gt_entity()) {
                    assert(y.subrange(0, 4) =~= x.subrange(0, 4));
                } else if has_prefix(x, quot_entity()) {
                    assert(y.subrange(0, 6) =~= x.subrange(0, 6));
                } else {
                    assert(y.subrange(0, 5) =~= x.subrange(0, 5));
                }
            } else {
                assert(e.skip(k) =~= b.skip(k - a.len()));
                assert(b[k - a.len()] == '&');
                assert(k == a.len());
                assert(b.skip(0) =~= b);
                assert(b.subrange(0, b.len() as int) =~= b);
            }
        }
    }
}

/// HTML escaping replaces each of `&`, `<`, `>`, `"` and `'` by its entity
/// exactly once: unescaping the result in one pass gives the text back,
/// every `&` of the result begins an entity, and the text comes out
/// unchanged exactly when it holds none of the five characters.
pub proof fn law_html_escape_round_trip(s: Seq<char>)
    ensures
        unescaped(escaped(s)) == s,
        forall|k: int|
            0 <= k < escaped(s).len() && #[trigger] escaped(s)[k] == '&' ==> starts_with_entity(
                escaped(s).skip(k),
            ),
        (escaped(s) == s) <==> (forall|k: int| 0 <= k < s.len() ==> !is_escaped_char(#[trigger] s[k])),
{
    lemma_unescape_escaped(s);
    lemma_ampersands_start_entities(s);
    lemma_escaped_len(s);
}

/// A duration in minutes for the HTML page (`&lt;1m` below a minute); the
/// duration is `seconds / sessions` seconds.
pub fn format_minutes(seconds: i128, sessions: u64) -> (r: String)
    requires
        sessions > 0,
        -DURATION_TEXT_LIMIT < seconds < DURATION_TEXT_LIMIT,
    ensures
        r@ == minutes_text(seconds as int, sessions as nat, "&lt;1m"@),
{
    minutes_text_exec(seconds, sessions, "&lt;1m")
}

/// The change against last week for the page: `+` or `-`, then the duration.
pub open spec fn signed_delta_text(delta: int) -> Seq<char> {
    if delta >= 0 {
        "+"@ + minutes_text(delta, 1, "&lt;1m"@)
    } else {
        "-"@ + minutes_text(-delta, 1, "&lt;1m"@)
    }
}

/// Writes the change against last week, given in seconds, for the page.
pub fn format_signed_delta(delta_seconds: i128) -> (r: String)
    requires
        -DURATION_TEXT_LIMIT < delta_seconds < DURATION_TEXT_LIMIT,
    ensures
        r@ == signed_delta_text(delta_seconds as int),
{
    let mut out = String::new();
    if delta_seconds >= 0 {
        out.append("+");
        let m = format_minutes(delta_seconds, 1);
        out.append(m.as_str());
    } else {
        out.append("-");
        let m = format_minutes(-delta_seconds, 1);
        out.append(m.as_str());
    }
    out
}

/// The hour window starting at `hour`, such as `9:00–10:00` (midnight wraps).
pub open spec fn hour_window(hour: u8) -> Seq<char> {
    decimal(hour as nat) + ":00–"@ + decimal(((hour + 1) % 24) as nat) + ":00"@
}

/// Writes the hour window starting at `hour`.
pub fn hour_window_text(hour: u8) -> (r: String)
    requires
        hour < 24,
    ensures
        r@ == hour_window(hour),
{
    let mut out = String::new();
    push_decimal(&mut out, hour as u128);
    out.append(":00–");
    push_decimal(&mut out, ((hour + 1) % 24) as u128);
    out.append(":00");
    assert(out@ =~= hour_window(hour));
    out
}

/// The label shown for a trend direction.
pub open spec fn trend_label_text(direction: TrendDirection) -> Seq<char> {
    match direction {
        TrendDirection::Up => "📈 Focus trending up"@,
        TrendDirection::Down => "📉 Focus declining — protect your blocks"@,
        TrendDirection::Steady => "Focus is steady"@,
    }
}

/// The label of a trend direction.
pub fn trend_label(direction: TrendDirection) -> (r: String)
    ensures
        r@ == trend_label_text(direction),
{
    match direction {
        TrendDirection::Up => owned("📈 Focus trending up"),
        TrendDirection::Down => owned("📉 Focus declining — protect your blocks"),
        TrendDirection::Steady => owned("Focus is steady"),
    }
}

/// The sentence about the strongest focus window.
pub open spec fn window_sentence(top_hour: Option<u8>) -> Seq<char> {
    match top_hour {
        Some(h) => "Your strongest current focus window is "@ + hour_window(h)
            + "; protect that slot for deep work first."@,
        None => "Keep logging sessions so your best focus windows can stabilize."@,
    }
}

/// The sentence about interruptions.
pub open spec fn distraction_sentence(high: bool) -> Seq<char> {
    if high {
        "Your interruption rate is high, so shorten your next block slightly and remove one obvious trigger before starting."@
    } else {
        "Your interruption rate is under control; keep the ritual consistent and increase session length gradually."@
    }
}

/// The sentence about the trend.
pub open spec fn trend_sentence(trend: Option<TrendDirection>) -> Seq<char> {
    match trend {
        Some(TrendDirection::Up) => "The trend model is positive, which means your total focus time is compounding."@,
        Some(TrendDirection::Down) => "The trend model is declining; schedule a recovery block early in the week instead of waiting for motivation."@,
        Some(TrendDirection::Steady) => "Your trend is steady; the next improvement should come from consistency rather than intensity."@,
        None => "Trend detection will unlock after seven calendar days of history."@,
    }
}

/// The sentence about the quality model, when it ran.
pub open spec fn quality_sentence(confident: bool) -> Seq<char> {
    if confident {
        "The quality model is confident enough to keep prioritizing your existing routine."@
    } else {
        "The quality model sees room to improve: favor your top-ranked hours and avoid scattered micro-sessions."@
    }
}

/// The recommendation paragraph.
pub open spec fn recommendation_text(
    total_sessions: nat,
    top_hour: Option<u8>,
    high_distraction: bool,
    trend: Option<TrendDirection>,
    quality_confident: Option<bool>,
) -> Seq<char> {
    if total_sessions == 0 {
        "Start by completing one focus session. Once sessions are logged, this report will identify your best hours, weekly trajectory, and predicted quality windows."@
    } else {
        let base = window_sentence(top_hour) + " "@ + distraction_sentence(high_distraction) + " "@
            + trend_sentence(trend);
        match quality_confident {
            Some(c) => base + " "@ + quality_sentence(c),
            None => base,
        }
    }
}

/// The recommendation paragraph of the report. `top_hour` is the strongest
/// hour, `high_distraction` whether more than 30% of sessions were
/// interrupted, `trend` the trend direction when the model ran, and
/// `quality_confident` whether the quality rate reached 60% when that model ran.
pub fn ai_recommendation(
    total_sessions: usize,
    top_hour: Option<u8>,
    high_distraction: bool,
    trend: Option<TrendDirection>,
    quality_confident: Option<bool>,
) -> (r: String)
    requires
        top_hour matches Some(h) ==> h < 24,
    ensures
        r@ == recommendation_text(
            total_sessions as nat,
            top_hour,
            high_distraction,
            trend,
            quality_confident,
        ),
{
    if total_sessions == 0 {
        return owned(
            "Start by completing one focus session. Once sessions are logged, this report will identify your best hours, weekly trajectory, and predicted quality windows.",
        );
    }
    let mut out = String::new();
    match top_hour {
        Some(h) => {
            out.append("Your strongest current focus window is ");
            let w = hour_window_text(h);
            out.append(w.as_str());
            out.append("; protect that slot for deep work first.");
        },
        None => {
            out.append("Keep logging sessions so your best focus windows can stabilize.");
        },
    }
    assert(out@ =~= window_sentence(top_hour));
    out.append(" ");
    if high_distraction {
        out.append(
            "Your interruption rate is high, so shorten your next block slightly and remove one obvious trigger before starting.",
        );
    } else {
        out.append(
            "Your interruption rate is under control; keep the ritual consistent and increase session length gradually.",
        );
    }
    out.append(" ");
    match trend {
        Some(TrendDirection::Up) => out.append(
            "The trend model is positive, which means your total focus time is compounding.",
        ),
        Some(TrendDirection::Down) => out.append(
            "The trend model is declining; schedule a recovery block early in the week instead of waiting for motivation.",
        ),
        Some(TrendDirection::Steady) => out.append(
            "Your trend is steady; the next improvement should come from consistency rather than intensity.",
        ),
        None => out.append("Trend detection will unlock after seven calendar days of history."),
    }
    match quality_confident {
        Some(c) => {
            out.append(" ");
            if c {
                out.append(
                    "The quality model is confident enough to keep prioritizing your existing routine.",
                );
            } else {
                out.append(
                    "The quality model sees room to improve: favor your top-ranked hours and avoid scattered micro-sessions.",
                );
            }
        },
        None => {},
    }
    out
}

/// The pieces of a list written one after another.
pub open spec fn concat_all(items: Seq<Seq<char>>) -> Seq<char>
    decreases items.len(),
{
    if items.len() == 0 {
        Seq::empty()
    } else {
        concat_all(items.drop_last()) + items.last()
    }
}

/// The list shown when no focus hour is ranked yet.
pub open spec fn no_windows_html() -> Seq<char> {
    "<div class=\"list-item\"><span class=\"muted\">Complete a few focus sessions to rank your strongest hours.</span></div>"@
}

/// One ranked focus window; `index` counts from 0.
pub open spec fn window_item(index: int, b: BucketStat, score: Seq<char>) -> Seq<char> {
    "<div class=\"list-item\"><div><span class=\"rank\">#"@ + decimal((index + 1) as nat)
        + "</span><strong>"@ + hour_window(b.bucket) + "</strong></div><span class=\"muted\">score "@
        + score + "</span></div>"@
}

/// The list of ranked focus windows.
pub open spec fn windows_html(hours: Seq<BucketStat>, scores: Seq<Seq<char>>) -> Seq<char> {
    if hours.len() == 0 {
        no_windows_html()
    } else {
        concat_all(Seq::new(hours.len(), |i: int| window_item(i, hours[i], scores[i])))
    }
}

/// The text views of a list of strings.
pub open spec fn string_views(v: Seq<String>) -> Seq<Seq<char>> {
    v.map_values(|s: String| s@)
}

/// Writes the ranked focus windows; `scores[i]` is the score of `hours[i]`.
pub fn render_top_focus_windows(hours: &Vec<BucketStat>, scores: &Vec<String>) -> (r: String)
    requires
        scores@.len() == hours@.len(),
        forall|i: int| 0 <= i < hours@.len() ==> (#[trigger] hours@[i]).bucket < 24,
        hours@.len() < 1000,
    ensures
        r@ == windows_html(hours@, string_views(scores@)),
{
    let n = hours.len();
    if n == 0 {
        return owned(
            "<div class=\"list-item\"><span class=\"muted\">Complete a few focus sessions to rank your strongest hours.</span></div>",
        );
    }
    let ghost f = |i: int| window_item(i, hours@[i], string_views(scores@)[i]);
    let mut out = String::new();
    let mut i: usize = 0;
    while i < n
        invariant
            n == hours@.len(),
            n == scores@.len(),
            n < 1000,
            i <= n,
            forall|q: int| 0 <= q < hours@.len() ==> (#[trigger] hours@[q]).bucket < 24,
            f == (|i: int| window_item(i, hours@[i], string_views(scores@)[i])),
            out@ == concat_all(Seq::new(i as nat, f)),
        decreases n - i,
    {
        let b = hours[i];
        out.append("<div class=\"list-item\"><div><span class=\"rank\">#");
        push_decimal(&mut out, (i + 1) as u128);
        out.append("</span><strong>");
        let w = hour_window_text(b.bucket);
        out.append(w.as_str());
        out.append("</strong></div><span class=\"muted\">score ");
        out.append(scores[i].as_str());
        out.append("</span></div>");
        proof {
            assert(Seq::new((i + 1) as nat, f).drop_last() =~= Seq::new(i as nat, f));
            assert(out@ =~= concat_all(Seq::new(i as nat, f)) + f(i as int));
        }
        i = i + 1;
    }
    out
}

/// The chart shown when there are no days.
pub open spec fn no_chart_html() -> Seq<char> {
    "<div class=\"bar-row\"><span class=\"muted\">No data</span><div class=\"bar-track\"><div class=\"bar-fill\" style=\"width: 0%\"></div></div><span class=\"muted\">0m</span></div>"@
}

/// One bar of the chart: the day's label, bar width (percent) and total.
pub open spec fn chart_row(day: DayTotal, date: Seq<char>, width: Seq<char>) -> Seq<char> {
    "<div class=\"bar-row\"><span class=\"muted\">"@ + escaped(date)
        + "</span><div class=\"bar-track\"><div class=\"bar-fill\" style=\"width: "@ + width
        + "%\"></div></div><span>"@ + minutes_text(day.total_seconds as int, 1, "&lt;1m"@)
        + "</span></div>"@
}

/// The daily chart.
pub open spec fn chart_html(days: Seq<DayTotal>, labels: Seq<(Seq<char>, Seq<char>)>) -> Seq<char> {
    if days.len() == 0 {
        no_chart_html()
    } else {
        concat_all(Seq::new(days.len(), |i: int| chart_row(days[i], labels[i].0, labels[i].1)))
    }
}

/// The text views of a list of string pairs.
pub open spec fn pair_views(v: Seq<(String, String)>) -> Seq<(Seq<char>, Seq<char>)> {
    v.map_values(|p: (String, String)| (p.0@, p.1@))
}

/// Writes the daily chart; `labels[i]` holds the date label and bar width of `days[i]`.
pub fn render_trend_chart(days: &Vec<DayTotal>, labels: &Vec<(String, String)>) -> (r: String)
    requires
        labels@.len() == days@.len(),
        forall|i: int| 0 <= i < days@.len() ==> (#[trigger] days@[i]).total_seconds < DURATION_TEXT_LIMIT,
    ensures
        r@ == chart_html(days@, pair_views(labels@)),
{
    let n = days.len();
    if n == 0 {
        return owned(
            "<div class=\"bar-row\"><span class=\"muted\">No data</span><div class=\"bar-track\"><div class=\"bar-fill\" style=\"width: 0%\"></div></div><span class=\"muted\">0m</span></div>",
        );
    }
    let ghost f = |i: int| chart_row(days@[i], pair_views(labels@)[i].0, pair_views(labels@)[i].1);
    let mut out = String::new();
    let mut i: usize = 0;
    while i < n
        invariant
            n == days@.len(),
            n == labels@.len(),
            i <= n,
            forall|q: int| 0 <= q < days@.len() ==> (#[trigger] days@[q]).total_seconds < DURATION_TEXT_LIMIT,
            f == (|i: int| chart_row(days@[i], pair_views(labels@)[i].0, pair_views(labels@)[i].1)),
            out@ == concat_all(Seq::new(i as nat, f)),
        decreases n - i,
    {
        let d = days[i];
        out.append("<div class=\"bar-row\"><span class=\"muted\">");
        let date = html_escape(labels[i].0.as_str());
        out.append(date.as_str());
        out.append("</span><div class=\"bar-track\"><div class=\"bar-fill\" style=\"width: ");
        out.append(labels[i].1.as_str());
        out.append("%\"></div></div><span>");
        let m = format_minutes(d.total_seconds as i128, 1);
        out.append(m.as_str());
        out.append("</span></div>");
        proof {
            assert(Seq::new((i + 1) as nat, f).drop_last() =~= Seq::new(i as nat, f));
            assert(out@ =~= concat_all(Seq::new(i as nat, f)) + f(i as int));
        }
        i = i + 1;
    }
    out
}

/// The quality model section: its rate (percent) and rules when it ran,
/// else how many more sessions it needs.
pub open spec fn tree_html(quality: Option<(Seq<char>, Seq<char>)>, total_sessions: nat) -> Seq<char> {
    match quality {
        Some((rate, rules)) => "<p class=\"muted\">Quality rate: <span class=\"accent\">"@ + rate
            + "%</span></p><pre>"@ + escaped(rules) + "</pre>"@,
        None => "<pre>Predictive model is collecting data. It needs "@ + decimal(
            if total_sessions >= TREE_MIN_SESSIONS {
                0
            } else {
                (TREE_MIN_SESSIONS - total_sessions) as nat
            },
        ) + " more completed session(s) before the decision tree activates.</pre>"@,
    }
}

/// Writes the quality model section.
pub fn render_decision_tree(quality: &Option<(String, String)>, total_sessions: usize) -> (r: String)
    ensures
        r@ == tree_html(
            match quality {
                Some((a, b)) => Some((a@, b@)),
                None => None,
            },
            total_sessions as nat,
        ),
{
    match quality {
        Some((rate, rules)) => {
            let mut out = owned("<p class=\"muted\">Quality rate: <span class=\"accent\">");
            out.append(rate.as_str());
            out.append("%</span></p><pre>");
            let esc = html_escape(rules.as_str());
            out.append(esc.as_str());
            out.append("</pre>");
            out
        },
        None => {
            let mut out = owned("<pre>Predictive model is collecting data. It needs ");
            push_decimal(&mut out, sessions_until_model(total_sessions) as u128);
            out.append(" more completed session(s) before the decision tree activates.</pre>");
            out
        },
    }
}

/// The floating-point figures of the report, rendered by the caller: this
/// week's hours (such as `1.5h`), the distraction rate (one decimal) and
/// whether it is above 30%, one score per top focus hour, the trend direction
/// and slope (two decimals) when the trend model ran, the quality rate (one
/// decimal), rules and whether the rate reached 60% when the quality model
/// ran, and per day of the chart its date label and bar width (one decimal).
pub struct ReportFigures {
    pub weekly_hours: String,
    pub distraction_rate: String,
    pub high_distraction: bool,
    pub hour_scores: Vec<String>,
    pub trend: Option<(TrendDirection, String)>,
    pub quality: Option<(String, String, bool)>,
    pub chart: Vec<(String, String)>,
}

/// The strongest hour, if any is ranked.
pub open spec fn top_hour_of(r: &AnalyticsResult) -> Option<u8> {
    if r.top_focus_hours@.len() > 0 {
        Some(r.top_focus_hours@[0].bucket)
    } else {
        None
    }
}

/// The parts of the report page for these statistics and figures.
pub open spec fn report_parts(r: &AnalyticsResult, f: &ReportFigures) -> PagePartsView {
    PagePartsView {
        weekly_hours: f.weekly_hours@,
        weekly_minutes: minutes_text(r.week.current_seconds as int, 1, "&lt;1m"@),
        weekly_sessions: decimal(r.week.current_sessions as nat),
        total_sessions: decimal(r.total_sessions as nat),
        weekly_delta: signed_delta_text(r.week.current_seconds - r.week.previous_seconds),
        distraction_rate: f.distraction_rate@,
        top_focus_windows: windows_html(r.top_focus_hours@, string_views(f.hour_scores@)),
        trend_label: escaped(
            match f.trend {
                Some((d, _)) => trend_label_text(d),
                None => "Collecting enough daily history for trend detection"@,
            },
        ),
        trend_slope: escaped(
            match f.trend {
                Some((_, slope)) => slope@ + " min/day"@,
                None => "needs 7 calendar days"@,
            },
        ),
        trend_chart: chart_html(r.last_7_day_totals@, pair_views(f.chart@)),
        decision_tree: tree_html(
            match f.quality {
                Some((rate, rules, _)) => Some((rate@, rules@)),
                None => None,
            },
            r.total_sessions as nat,
        ),
        recommendation: escaped(
            recommendation_text(
                r.total_sessions as nat,
                top_hour_of(r),
                f.high_distraction,
                match f.trend {
                    Some((d, _)) => Some(d),
                    None => None,
                },
                match f.quality {
                    Some((_, _, confident)) => Some(confident),
                    None => None,
                },
            ),
        ),
    }
}

fn report_trend_parts(figures: &ReportFigures) -> (r: (String, String))
    ensures
        r.0@ == escaped(
            match figures.trend {
                Some((d, _)) => trend_label_text(d),
                None => "Collecting enough daily history for trend detection"@,
            },
        ),
        r.1@ == escaped(
            match figures.trend {
                Some((_, slope)) => slope@ + " min/day"@,
                None => "needs 7 calendar days"@,
            },
        ),
{
    match &figures.trend {
        Some((d, slope)) => {
            let label = trend_label(*d);
            let mut s = owned(slope.as_str());
            s.append(" min/day");
            (html_escape(label.as_str()), html_escape(s.as_str()))
        },
        None => (
            html_escape("Collecting enough daily history for trend detection"),
            html_escape("needs 7 calendar days"),
        ),
    }
}

fn report_recommendation(result: &AnalyticsResult, figures: &ReportFigures) -> (r: String)
    requires
        crate::summary::summary_ready(result),
    ensures
        r@ == report_parts(result, figures).recommendation,
{
    let top_hour = if result.top_focus_hours.len() > 0 {
        Some(result.top_focus_hours[0].bucket)
    } else {
        None
    };
    let trend = match &figures.trend {
        Some((d, _)) => Some(*d),
        None => None,
    };
    let confident = match &figures.quality {
        Some((_, _, c)) => Some(*c),
        None => None,
    };
    let text = ai_recommendation(
        result.total_sessions,
        top_hour,
        figures.high_distraction,
        trend,
        confident,
    );
    html_escape(text.as_str())
}

/// The Focus Health Report page.
pub fn generate_report(result: &AnalyticsResult, figures: &ReportFigures) -> (r: String)
    requires
        crate::summary::summary_ready(result),
        figures.hour_scores@.len() == result.top_focus_hours@.len(),
        figures.chart@.len() == result.last_7_day_totals@.len(),
    ensures
        r@ == page_text(report_parts(result, figures)),
{
    let top_focus_windows = render_top_focus_windows(&result.top_focus_hours, &figures.hour_scores);
    let trend_chart = render_trend_chart(&result.last_7_day_totals, &figures.chart);
    let quality = match &figures.quality {
        Some((rate, rules, _)) => Some((rate.clone(), rules.clone())),
        None => None,
    };
    let decision_tree = render_decision_tree(&quality, result.total_sessions);
    let recommendation = report_recommendation(result, figures);
    let (trend_label, trend_slope) = report_trend_parts(figures);
    let mut weekly_sessions = String::new();
    push_decimal(&mut weekly_sessions, result.week.current_sessions as u128);
    let mut total_sessions = String::new();
    push_decimal(&mut total_sessions, result.total_sessions as u128);
    let parts = PageParts {
        weekly_hours: figures.weekly_hours.clone(),
        weekly_minutes: format_minutes(result.week.current_seconds as i128, 1),
        weekly_sessions,
        total_sessions,
        weekly_delta: format_signed_delta(
            result.week.current_seconds as i128 - result.week.previous_seconds as i128,
        ),
        distraction_rate: figures.distraction_rate.clone(),
        top_focus_windows,
        trend_label,
        trend_slope,
        trend_chart,
        decision_tree,
        recommendation,
    };
    proof {
        assert(parts_view(&parts).weekly_sessions =~= decimal(result.week.current_sessions as nat));
        assert(parts_view(&parts).total_sessions =~= decimal(result.total_sessions as nat));
        assert(parts_view(&parts) == report_parts(result, figures));
    }
    report_page(&parts)
}

/// The report's change against last week is signed by which week holds more
/// focused time: it starts with `+` exactly when this week holds at least as
/// much as last week, with `-` otherwise, and the rest is the size of the
/// difference in minutes.
pub proof fn law_report_delta_is_signed_week_change(r: &AnalyticsResult, f: &ReportFigures)
    ensures
        ({
            let d = report_parts(r, f).weekly_delta;
            let cur = r.week.current_seconds as int;
            let prev = r.week.previous_seconds as int;
            &&& d.len() > 0
            &&& (d[0] == '+') == (cur >= prev)
            &&& (d[0] == '-') == (cur < prev)
            &&& d.drop_first() == minutes_text(
                if cur >= prev {
                    cur - prev
                } else {
                    prev - cur
                },
                1,
                "&lt;1m"@,
            )
        }),
{
    reveal_strlit("+");
    reveal_strlit("-");
    let d = report_parts(r, f).weekly_delta;
    let cur = r.week.current_seconds as int;
    let prev = r.week.previous_seconds as int;
    if cur >= prev {
        assert(d == "+"@ + minutes_text(cur - prev, 1, "&lt;1m"@));
        assert(d.drop_first() =~= minutes_text(cur - prev, 1, "&lt;1m"@));
    } else {
        assert(d == "-"@ + minutes_text(prev - cur, 1, "&lt;1m"@));
        assert(d.drop_first() =~= minutes_text(prev - cur, 1, "&lt;1m"@));
    }
}

} // verus!
