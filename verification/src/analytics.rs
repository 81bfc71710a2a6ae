//! Statistics over the session log, computed exactly in whole seconds:
//! interruption and quality counts, the strongest hours and days, this
//! week's total against last week's, daily totals, and the training data and
//! readings of the quality model.
use vstd::prelude::*;
use crate::text::{decimal, owned, push_decimal};
use crate::daily::totals_in_day_order;
use std::collections::BTreeMap;
use crate::session::{SessionRecord, LocalStamp, local_day, weekday_of, local_day_number,
    local_hour_and_weekday, local_seconds_of, MAX_SESSION_SECONDS, SECONDS_PER_DAY};

verus! {

/// Distinct calendar days needed before the trend model runs.
pub const TREND_MIN_DAYS: usize = 7;

/// Sessions needed before the quality model runs.
pub const TREE_MIN_SESSIONS: usize = 30;

/// How many focus hours are ranked.
pub const TOP_HOURS: usize = 3;

/// How many days are ranked.
pub const TOP_DAYS: usize = 2;

/// The largest session log the statistics accept (a machine limit: such a
/// log would not fit in memory).
pub const MAX_SESSIONS: usize = 4294967295;

/// How a session is judged.
#[derive(Clone, Copy, Debug, PartialEq, Eq, Structural)]
pub enum SessionQuality {
    Quality,
    Shallow,
    Distracted,
}

/// The quality of a session: `Quality` when it lasted 20 minutes and was not
/// interrupted, `Shallow` when it lasted 10 minutes, `Distracted` otherwise.
pub open spec fn quality_of(s: SessionRecord) -> SessionQuality {
    if s.duration_seconds >= 1200 && !s.interrupted {
        SessionQuality::Quality
    } else if s.duration_seconds >= 600 {
        SessionQuality::Shallow
    } else {
        SessionQuality::Distracted
    }
}

/// The class number of a quality (0, 1, 2).
pub open spec fn label_number(q: SessionQuality) -> nat {
    match q {
        SessionQuality::Quality => 0,
        SessionQuality::Shallow => 1,
        SessionQuality::Distracted => 2,
    }
}

/// The quality that a class number stands for; unknown numbers are `Distracted`.
pub open spec fn quality_of_label(label: nat) -> SessionQuality {
    if label == 0 {
        SessionQuality::Quality
    } else if label == 1 {
        SessionQuality::Shallow
    } else {
        SessionQuality::Distracted
    }
}

impl SessionQuality {
    /// The class number of this quality.
    pub fn as_label(self) -> (r: usize)
        ensures
            r == label_number(self),
    {
        match self {
            SessionQuality::Quality => 0,
            SessionQuality::Shallow => 1,
            SessionQuality::Distracted => 2,
        }
    }

    /// The quality a class number stands for.
    pub fn from_label(label: usize) -> (r: SessionQuality)
        ensures
            r == quality_of_label(label as nat),
    {
        if label == 0 {
            SessionQuality::Quality
        } else if label == 1 {
            SessionQuality::Shallow
        } else {
            SessionQuality::Distracted
        }
    }
}

/// Judges a session.
pub fn label_session(session: &SessionRecord) -> (r: SessionQuality)
    ensures
        r == quality_of(*session),
{
    if session.duration_seconds >= 1200 && !session.interrupted {
        SessionQuality::Quality
    } else if session.duration_seconds >= 600 {
        SessionQuality::Shallow
    } else {
        SessionQuality::Distracted
    }
}

/// Class numbers read back as the qualities they came from.
pub proof fn law_label_round_trip(q: SessionQuality)
    ensures
        quality_of_label(label_number(q)) == q,
{
}

/// All records are valid and there are not too many of them.
pub open spec fn log_ok(ss: Seq<SessionRecord>) -> bool {
    &&& ss.len() <= MAX_SESSIONS
    &&& forall|k: int| 0 <= k < ss.len() ==> (#[trigger] ss[k]).wf()
}

/// The number of interrupted sessions.
pub open spec fn interrupted_in(ss: Seq<SessionRecord>) -> nat
    decreases ss.len(),
{
    if ss.len() == 0 {
        0
    } else {
        interrupted_in(ss.drop_last()) + if ss.last().interrupted {
            1nat
        } else {
            0nat
        }
    }
}

/// The number of sessions of quality `Quality`.
pub open spec fn quality_in(ss: Seq<SessionRecord>) -> nat
    decreases ss.len(),
{
    if ss.len() == 0 {
        0
    } else {
        quality_in(ss.drop_last()) + if quality_of(ss.last()) == SessionQuality::Quality {
            1nat
        } else {
            0nat
        }
    }
}

proof fn lemma_count_le_len(ss: Seq<SessionRecord>)
    ensures
        interrupted_in(ss) <= ss.len(),
        quality_in(ss) <= ss.len(),
    decreases ss.len(),
{
    if ss.len() > 0 {
        lemma_count_le_len(ss.drop_last());
    }
}

/// Counts the interrupted sessions.
pub fn interrupted_count(sessions: &Vec<SessionRecord>) -> (r: usize)
    ensures
        r == interrupted_in(sessions@),
{
    let n = sessions.len();
    let mut c: usize = 0;
    let mut i: usize = 0;
    while i < n
        invariant
            n == sessions@.len(),
            i <= n,
            c == interrupted_in(sessions@.subrange(0, i as int)),
        decreases n - i,
    {
        proof {
            assert(sessions@.subrange(0, i + 1).drop_last() =~= sessions@.subrange(0, i as int));
            lemma_count_le_len(sessions@.subrange(0, i + 1));
        }
        if sessions[i].interrupted {
            c = c + 1;
        }
        i = i + 1;
    }
    assert(sessions@.subrange(0, n as int) =~= sessions@);
    c
}

/// Counts the sessions of quality `Quality`.
pub fn quality_count(sessions: &Vec<SessionRecord>) -> (r: usize)
    ensures
        r == quality_in(sessions@),
{
    let n = sessions.len();
    let mut c: usize = 0;
    let mut i: usize = 0;
    while i < n
        invariant
            n == sessions@.len(),
            i <= n,
            c == quality_in(sessions@.subrange(0, i as int)),
        decreases n - i,
    {
        proof {
            assert(sessions@.subrange(0, i + 1).drop_last() =~= sessions@.subrange(0, i as int));
            lemma_count_le_len(sessions@.subrange(0, i + 1));
        }
        if label_session(&sessions[i]) == SessionQuality::Quality {
            c = c + 1;
        }
        i = i + 1;
    }
    assert(sessions@.subrange(0, n as int) =~= sessions@);
    c
}

// ---------------------------------------------------------------------------
// Hour and day buckets

/// The bucket of a session: its weekday (capped at 6) when `by_day`, else its
/// hour (capped at 23).
pub open spec fn bucket_of(s: SessionRecord, by_day: bool) -> int {
    if by_day {
        if s.day_of_week > 6 {
            6
        } else {
            s.day_of_week as int
        }
    } else {
        if s.hour_of_day > 23 {
            23
        } else {
            s.hour_of_day as int
        }
    }
}

/// The number of buckets: 7 days or 24 hours.
pub open spec fn bucket_span(by_day: bool) -> int {
    if by_day {
        7
    } else {
        24
    }
}

/// Total seconds of the sessions in bucket `b`.
pub open spec fn bucket_total(ss: Seq<SessionRecord>, by_day: bool, b: int) -> nat
    decreases ss.len(),
{
    if ss.len() == 0 {
        0
    } else {
        bucket_total(ss.drop_last(), by_day, b) + if bucket_of(ss.last(), by_day) == b {
            ss.last().duration_seconds as nat
        } else {
            0nat
        }
    }
}

/// The number of sessions in bucket `b`.
pub open spec fn bucket_count(ss: Seq<SessionRecord>, by_day: bool, b: int) -> nat
    decreases ss.len(),
{
    if ss.len() == 0 {
        0
    } else {
        bucket_count(ss.drop_last(), by_day, b) + if bucket_of(ss.last(), by_day) == b {
            1nat
        } else {
            0nat
        }
    }
}

proof fn lemma_bucket_bounds(ss: Seq<SessionRecord>, by_day: bool, b: int)
    requires
        forall|k: int| 0 <= k < ss.len() ==> (#[trigger] ss[k]).wf(),
    ensures
        bucket_total(ss, by_day, b) <= ss.len() * MAX_SESSION_SECONDS,
        bucket_count(ss, by_day, b) <= ss.len(),
    decreases ss.len(),
{
    if ss.len() > 0 {
        assert forall|k: int| 0 <= k < ss.drop_last().len() implies (
        #[trigger] ss.drop_last()[k]).wf() by {
            assert(ss.drop_last()[k] == ss[k]);
        }
        lemma_bucket_bounds(ss.drop_last(), by_day, b);
        assert(ss.last().wf());
        assert((ss.len() - 1) * MAX_SESSION_SECONDS + MAX_SESSION_SECONDS == ss.len()
            * MAX_SESSION_SECONDS) by (nonlinear_arith);
    }
}

/// Per-bucket totals and counts, indexed by bucket.
fn bucket_sums(sessions: &Vec<SessionRecord>, by_day: bool) -> (r: (Vec<u128>, Vec<u64>))
    requires
        log_ok(sessions@),
    ensures
        r.0@.len() == bucket_span(by_day),
        r.1@.len() == bucket_span(by_day),
        forall|b: int|
            0 <= b < bucket_span(by_day) ==> #[trigger] r.0@[b] == bucket_total(sessions@, by_day, b),
        forall|b: int|
            0 <= b < bucket_span(by_day) ==> #[trigger] r.1@[b] == bucket_count(sessions@, by_day, b),
{
    let span: usize = if by_day {
        7
    } else {
        24
    };
    let mut totals: Vec<u128> = Vec::new();
    let mut counts: Vec<u64> = Vec::new();
    let mut b: usize = 0;
    while b < span
        invariant
            span == bucket_span(by_day),
            b <= span,
            totals@.len() == b,
            counts@.len() == b,
            forall|q: int| 0 <= q < b ==> #[trigger] totals@[q] == 0,
            forall|q: int| 0 <= q < b ==> #[trigger] counts@[q] == 0,
        decreases span - b,
    {
        totals.push(0);
        counts.push(0);
        b = b + 1;
    }
    let n = sessions.len();
    let mut i: usize = 0;
    while i < n
        invariant
            n == sessions@.len(),
            log_ok(sessions@),
            span == bucket_span(by_day),
            i <= n,
            totals@.len() == span,
            counts@.len() == span,
            forall|q: int|
                0 <= q < span ==> #[trigger] totals@[q] == bucket_total(
                    sessions@.subrange(0, i as int),
                    by_day,
                    q,
                ),
            forall|q: int|
                0 <= q < span ==> #[trigger] counts@[q] == bucket_count(sessions@.subrange(0, i as int), by_day, q),
        decreases n - i,
    {
        let s = &sessions[i];
        let bucket: usize = if by_day {
            if s.day_of_week > 6 {
                6
            } else {
                s.day_of_week as usize
            }
        } else {
            if s.hour_of_day > 23 {
                23
            } else {
                s.hour_of_day as usize
            }
        };
        let ghost pre = sessions@.subrange(0, i + 1);
        proof {
            assert(pre.drop_last() =~= sessions@.subrange(0, i as int));
            assert(forall|k: int| 0 <= k < pre.len() ==> pre[k] == sessions@[k]);
            lemma_bucket_bounds(pre, by_day, bucket as int);
            assert(pre.len() * MAX_SESSION_SECONDS <= 4294967296 * MAX_SESSION_SECONDS) by (
            nonlinear_arith)
                requires
                    pre.len() <= 4294967296,
            ;
        }
        let t = totals[bucket] + s.duration_seconds as u128;
        let c = counts[bucket] + 1;
        let ghost old_t = totals@;
        let ghost old_c = counts@;
        totals.set(bucket, t);
        counts.set(bucket, c);
        proof {
            assert(pre.last() == *s);
            assert(bucket_of(*s, by_day) == bucket as int);
            assert forall|q: int| 0 <= q < span implies #[trigger] totals@[q] == bucket_total(
                pre,
                by_day,
                q,
            ) && #[trigger] counts@[q] == bucket_count(pre, by_day, q) by {
                assert(old_t[q] == bucket_total(pre.drop_last(), by_day, q));
                assert(old_c[q] == bucket_count(pre.drop_last(), by_day, q));
            }
        }
        i = i + 1;
    }
    assert(sessions@.subrange(0, n as int) =~= sessions@);
    (totals, counts)
}

/// `a` ranks before `b` when its key `num/den` is larger, the smaller index
/// winning ties.
pub open spec fn ranks_before(num: Seq<u128>, den: Seq<u64>, a: int, b: int) -> bool {
    num[a] * den[b] > num[b] * den[a] || (num[a] * den[b] == num[b] * den[a] && a < b)
}

proof fn lemma_ranks_total(num: Seq<u128>, den: Seq<u64>, a: int, b: int)
    requires
        a != b,
    ensures
        ranks_before(num, den, a, b) || ranks_before(num, den, b, a),
        !(ranks_before(num, den, a, b) && ranks_before(num, den, b, a)),
{
}

proof fn lemma_ranks_transitive(num: Seq<u128>, den: Seq<u64>, a: int, b: int, c: int)
    requires
        0 <= a < num.len(),
        0 <= b < num.len(),
        0 <= c < num.len(),
        num.len() == den.len(),
        den[a] > 0,
        den[b] > 0,
        den[c] > 0,
        ranks_before(num, den, a, b),
        ranks_before(num, den, b, c),
    ensures
        ranks_before(num, den, a, c),
{
    let (na, nb, nc) = (num[a] as int, num[b] as int, num[c] as int);
    let (da, db, dc) = (den[a] as int, den[b] as int, den[c] as int);
    let pab = na * db - nb * da;
    let pbc = nb * dc - nc * db;
    let pac = na * dc - nc * da;
    assert(db * pac == dc * pab + da * pbc) by (nonlinear_arith)
        requires
            pab == na * db - nb * da,
            pbc == nb * dc - nc * db,
            pac == na * dc - nc * da,
    ;
    assert(pab >= 0 && pbc >= 0);
    assert(pac >= 0 && ((pab > 0 || pbc > 0) ==> pac > 0) && ((pab == 0 && pbc == 0) ==> pac
        == 0)) by (nonlinear_arith)
        requires
            db * pac == dc * pab + da * pbc,
            da > 0,
            db > 0,
            dc > 0,
            pab >= 0,
            pbc >= 0,
    ;
}

/// Bucket `q` can come next after the ranking `r`: it holds a session and
/// ranks after the last bucket chosen.
pub open spec fn eligible_next(num: Seq<u128>, den: Seq<u64>, counts: Seq<u64>, r: Seq<usize>, q: int) -> bool {
    counts[q] > 0 && (r.len() == 0 || ranks_before(num, den, r.last() as int, q))
}

/// Keys small enough to compare by cross-multiplication in `u128`.
pub open spec fn keys_bounded(num: Seq<u128>, den: Seq<u64>) -> bool {
    forall|b: int| 0 <= b < num.len() ==> #[trigger] num[b] < 0x1_0000_0000_0000_0000_0000_0000u128 && den[b] < 0x1_0000_0000u64 && den[b] > 0
}

fn ranks_before_exec(num: &Vec<u128>, den: &Vec<u64>, a: usize, b: usize) -> (r: bool)
    requires
        a < num@.len(),
        b < num@.len(),
        num@.len() == den@.len(),
        keys_bounded(num@, den@),
    ensures
        r == ranks_before(num@, den@, a as int, b as int),
{
    proof {
        assert(num[a as int] < 0x1_0000_0000_0000_0000_0000_0000u128);
        assert(num[b as int] < 0x1_0000_0000_0000_0000_0000_0000u128);
        assert(num[a as int] * den[b as int] < 0x1_0000_0000_0000_0000_0000_0000u128
            * 0x1_0000_0000u64) by (nonlinear_arith)
            requires
                num[a as int] < 0x1_0000_0000_0000_0000_0000_0000u128,
                den[b as int] < 0x1_0000_0000u64,
        ;
        assert(num[b as int] * den[a as int] < 0x1_0000_0000_0000_0000_0000_0000u128
            * 0x1_0000_0000u64) by (nonlinear_arith)
            requires
                num[b as int] < 0x1_0000_0000_0000_0000_0000_0000u128,
                den[a as int] < 0x1_0000_0000u64,
        ;
    }
    let x = num[a] * den[b] as u128;
    let y = num[b] * den[a] as u128;
    x > y || (x == y && a < b)
}

/// The first `k` buckets in rank order, among those with a session.
pub open spec fn is_top_ranking(
    num: Seq<u128>,
    den: Seq<u64>,
    counts: Seq<u64>,
    k: int,
    r: Seq<usize>,
) -> bool {
    &&& r.len() <= k
    &&& forall|i: int| 0 <= i < r.len() ==> #[trigger] r[i] < counts.len() && counts[r[i] as int]
        > 0
    &&& forall|i: int, j: int|
        0 <= i < j < r.len() ==> ranks_before(num, den, #[trigger] r[i] as int, #[trigger] r[j] as int)
    &&& forall|b: int|
        #![trigger counts[b]]
        0 <= b < counts.len() && counts[b] > 0 && !r.contains(b as usize) ==> r.len() == k
            && ranks_before(num, den, r.last() as int, b)
}

/// The `k` best-ranked buckets that hold a session, best first.
fn top_ranked(num: &Vec<u128>, den: &Vec<u64>, counts: &Vec<u64>, k: usize) -> (r: Vec<usize>)
    requires
        num@.len() == den@.len(),
        num@.len() == counts@.len(),
        keys_bounded(num@, den@),
        k > 0,
    ensures
        is_top_ranking(num@, den@, counts@, k as int, r@),
{
    let n = counts.len();
    let mut r: Vec<usize> = Vec::new();
    while r.len() < k
        invariant
            n == counts@.len(),
            num@.len() == n,
            den@.len() == n,
            keys_bounded(num@, den@),
            k > 0,
            r@.len() <= k,
            forall|i: int| 0 <= i < r@.len() ==> #[trigger] r@[i] < n && counts@[r@[i] as int] > 0,
            forall|i: int, j: int|
                0 <= i < j < r@.len() ==> ranks_before(
                    num@,
                    den@,
                    #[trigger] r@[i] as int,
                    #[trigger] r@[j] as int,
                ),
            forall|b: int|
                0 <= b < n && counts@[b] > 0 && !r@.contains(b as usize) ==> eligible_next(num@, den@, counts@, r@, b),
        decreases k - r@.len(),
    {
        let mut best: Option<usize> = None;
        let mut b: usize = 0;
        while b < n
            invariant
                n == counts@.len(),
                num@.len() == n,
                den@.len() == n,
                keys_bounded(num@, den@),
                forall|i: int| 0 <= i < r@.len() ==> #[trigger] r@[i] < n,
                b <= n,
                best matches Some(x) ==> x < b && eligible_next(num@, den@, counts@, r@, x as int),
                forall|q: int|
                    0 <= q < b && #[trigger] eligible_next(num@, den@, counts@, r@, q) ==> (best matches Some(x) && (x == q || ranks_before(
                        num@,
                        den@,
                        x as int,
                        q,
                    ))),
            decreases n - b,
        {
            let eligible = counts[b] > 0 && (r.len() == 0 || ranks_before_exec(
                num,
                den,
                r[r.len() - 1],
                b,
            ));
            assert(eligible == eligible_next(num@, den@, counts@, r@, b as int));
            if eligible {
                match best {
                    None => {
                        best = Some(b);
                    },
                    Some(x) => {
                        if ranks_before_exec(num, den, b, x) {
                            proof {
                                assert forall|q: int|
                                    0 <= q < b + 1 && #[trigger] eligible_next(num@, den@, counts@, r@, q) implies (q == b || ranks_before(
                                    num@,
                                    den@,
                                    b as int,
                                    q,
                                )) by {
                                    if q != b && q != x {
                                        assert(ranks_before(num@, den@, x as int, q));
                                        lemma_ranks_transitive(
                                            num@,
                                            den@,
                                            b as int,
                                            x as int,
                                            q,
                                        );
                                    }
                                }
                            }
                            best = Some(b);
                        } else {
                            proof {
                                lemma_ranks_total(num@, den@, b as int, x as int);
                            }
                        }
                    },
                }
            }
            b = b + 1;
        }
        match best {
            None => {
                proof {
                    assert forall|q: int|
                        #![trigger counts@[q]]
                        0 <= q < counts@.len() && counts@[q] > 0 && !r@.contains(q as usize) implies r@.len()
                        == k && ranks_before(num@, den@, r@.last() as int, q) by {
                        assert(eligible_next(num@, den@, counts@, r@, q));
                    }
                }
                return r;
            },
            Some(x) => {
                let ghost old_r = r@;
                proof {
                    if old_r.len() > 0 {
                        assert forall|i: int| 0 <= i < old_r.len() - 1 implies ranks_before(
                            num@,
                            den@,
                            #[trigger] old_r[i] as int,
                            x as int,
                        ) by {
                            assert(ranks_before(num@, den@, old_r[i] as int, old_r[old_r.len() - 1] as int));
                            lemma_ranks_transitive(
                                num@,
                                den@,
                                old_r[i] as int,
                                old_r.last() as int,
                                x as int,
                            );
                        }
                    }
                }
                r.push(x);
                proof {
                    assert(r@.last() == x);
                    assert forall|q: int|
                        0 <= q < n && counts@[q] > 0 && !r@.contains(q as usize) implies eligible_next(num@, den@, counts@, r@, q) by {
                        assert(!old_r.contains(q as usize)) by {
                            if old_r.contains(q as usize) {
                                let w = choose|w: int|
                                    0 <= w < old_r.len() && old_r[w] == q as usize;
                                assert(r@[w] == q as usize);
                            }
                        }
                        assert(q != x) by {
                            assert(r@[r@.len() - 1] == x);
                        }
                        assert(eligible_next(num@, den@, counts@, old_r, q));
                    }
                    assert forall|i: int, j: int|
                        0 <= i < j < r@.len() implies ranks_before(
                        num@,
                        den@,
                        #[trigger] r@[i] as int,
                        #[trigger] r@[j] as int,
                    ) by {
                        if j < old_r.len() {
                            assert(r@[i] == old_r[i] && r@[j] == old_r[j]);
                        } else if i < old_r.len() - 1 {
                            assert(r@[i] == old_r[i]);
                        } else {
                            assert(r@[i] == old_r.last());
                        }
                    }
                }
            },
        }
    }
    proof {
        assert forall|q: int|
            #![trigger counts@[q]]
            0 <= q < counts@.len() && counts@[q] > 0 && !r@.contains(q as usize) implies r@.len()
            == k && ranks_before(num@, den@, r@.last() as int, q) by {
            assert(eligible_next(num@, den@, counts@, r@, q));
        }
    }
    r
}

/// A bucket's statistics: the hour (0–23) or weekday (0 = Monday), the total
/// seconds of its sessions, and how many sessions it holds.
#[derive(Clone, Copy, Debug, PartialEq, Eq, Structural)]
pub struct BucketStat {
    pub bucket: u8,
    pub total_seconds: u128,
    pub sessions: u64,
}

/// Bucket `a` ranks before bucket `b`: hours by total time, days by mean
/// session length; the earlier bucket wins ties.
pub open spec fn bucket_before(ss: Seq<SessionRecord>, by_day: bool, a: int, b: int) -> bool {
    let ta = bucket_total(ss, by_day, a);
    let tb = bucket_total(ss, by_day, b);
    if by_day {
        let ca = bucket_count(ss, by_day, a);
        let cb = bucket_count(ss, by_day, b);
        ta * cb > tb * ca || (ta * cb == tb * ca && a < b)
    } else {
        ta > tb || (ta == tb && a < b)
    }
}

/// `r` lists the first `k` buckets holding a session in the order of
/// `bucket_before`, with their totals and counts.
pub open spec fn is_bucket_ranking(ss: Seq<SessionRecord>, by_day: bool, k: int, r: Seq<BucketStat>) -> bool {
    &&& r.len() <= k
    &&& forall|i: int|
        0 <= i < r.len() ==> {
            let b = (#[trigger] r[i]).bucket as int;
            &&& b < bucket_span(by_day)
            &&& r[i].total_seconds == bucket_total(ss, by_day, b)
            &&& r[i].sessions == bucket_count(ss, by_day, b)
            &&& r[i].sessions > 0
        }
    &&& forall|i: int, j: int|
        0 <= i < j < r.len() ==> bucket_before(ss, by_day, (#[trigger] r[i]).bucket as int, (#[trigger] r[j]).bucket as int)
    &&& forall|b: int|
        0 <= b < bucket_span(by_day) && #[trigger] bucket_count(ss, by_day, b) > 0 && (forall|i: int| 0 <= i < r.len() ==> (#[trigger] r[i]).bucket != b)
            ==> r.len() == k && bucket_before(ss, by_day, r.last().bucket as int, b)
}

fn ranked_buckets(sessions: &Vec<SessionRecord>, by_day: bool, k: usize) -> (r: Vec<BucketStat>)
    requires
        log_ok(sessions@),
        k > 0,
    ensures
        is_bucket_ranking(sessions@, by_day, k as int, r@),
{
    let (totals, counts) = bucket_sums(sessions, by_day);
    let span = counts.len();
    let mut den: Vec<u64> = Vec::new();
    let mut b: usize = 0;
    while b < span
        invariant
            span == counts@.len(),
            b <= span,
            den@.len() == b,
            forall|q: int| 0 <= q < b ==> #[trigger] den@[q] == (if by_day && counts@[q] > 0 {
                counts@[q]
            } else {
                1
            }),
        decreases span - b,
    {
        if by_day && counts[b] > 0 {
            den.push(counts[b]);
        } else {
            den.push(1);
        }
        b = b + 1;
    }
    proof {
        assert forall|q: int| 0 <= q < totals@.len() implies #[trigger] totals@[q] < 0x1_0000_0000_0000_0000_0000_0000u128 && den@[q] < 0x1_0000_0000u64 && den@[q] > 0 by {
            lemma_bucket_bounds(sessions@, by_day, q);
            assert(sessions@.len() * MAX_SESSION_SECONDS <= 4294967295 * MAX_SESSION_SECONDS) by (nonlinear_arith)
                requires sessions@.len() <= 4294967295;
        }
    }
    let ranked = top_ranked(&totals, &den, &counts, k);
    let ghost ss = sessions@;
    proof {
        assert forall|a: int, c: int| 0 <= a < span && 0 <= c < span && counts@[a] > 0 && counts@[c] > 0 implies
            (#[trigger] ranks_before(totals@, den@, a, c)) == bucket_before(ss, by_day, a, c) by {
            if !by_day {
                assert(totals@[a] * den@[c] == totals@[a] * 1);
                assert(totals@[c] * den@[a] == totals@[c] * 1);
            }
        }
    }
    let mut out: Vec<BucketStat> = Vec::new();
    let m = ranked.len();
    let mut i: usize = 0;
    while i < m
        invariant
            m == ranked@.len(),
            i <= m,
            span == bucket_span(by_day),
            out@.len() == i,
            forall|q: int| 0 <= q < i ==> (#[trigger] out@[q]).bucket as int == ranked@[q] as int,
            forall|q: int| 0 <= q < i ==> (#[trigger] out@[q]).total_seconds == totals@[ranked@[q] as int],
            forall|q: int| 0 <= q < i ==> (#[trigger] out@[q]).sessions == counts@[ranked@[q] as int],
            is_top_ranking(totals@, den@, counts@, k as int, ranked@),
            counts@.len() == span,
            totals@.len() == span,
            forall|q: int| 0 <= q < span ==> #[trigger] totals@[q] == bucket_total(sessions@, by_day, q),
            forall|q: int| 0 <= q < span ==> #[trigger] counts@[q] == bucket_count(sessions@, by_day, q),
        decreases m - i,
    {
        let idx = ranked[i];
        out.push(BucketStat { bucket: idx as u8, total_seconds: totals[idx], sessions: counts[idx] });
        i = i + 1;
    }
    proof {
        assert forall|q: int| 0 <= q < out@.len() implies #[trigger] out@[q].bucket as int == ranked@[q] as int by {}
        assert forall|i: int, j: int| 0 <= i < j < out@.len() implies bucket_before(ss, by_day, (#[trigger] out@[i]).bucket as int, (#[trigger] out@[j]).bucket as int) by {
            assert(ranks_before(totals@, den@, ranked@[i] as int, ranked@[j] as int));
        }
        assert forall|b: int|
            0 <= b < bucket_span(by_day) && #[trigger] bucket_count(ss, by_day, b) > 0 && (forall|i: int| 0 <= i < out@.len() ==> (#[trigger] out@[i]).bucket != b)
            implies out@.len() == k && bucket_before(ss, by_day, out@.last().bucket as int, b) by {
            assert(counts@[b] > 0);
            assert(!ranked@.contains(b as usize)) by {
                if ranked@.contains(b as usize) {
                    let w = choose|w: int| 0 <= w < ranked@.len() && ranked@[w] == b as usize;
                    assert(out@[w].bucket != b);
                }
            }
            assert(ranks_before(totals@, den@, ranked@.last() as int, b));
            assert(out@.last().bucket as int == ranked@.last() as int);
        }
    }
    out
}

/// The (at most three) hours with the most focused time, best first; the
/// earlier hour wins ties.
pub fn top_focus_hours(sessions: &Vec<SessionRecord>) -> (r: Vec<BucketStat>)
    requires
        log_ok(sessions@),
    ensures
        is_bucket_ranking(sessions@, false, TOP_HOURS as int, r@),
{
    ranked_buckets(sessions, false, TOP_HOURS)
}

/// The (at most two) weekdays with the longest mean session, best first;
/// the earlier day wins ties.
pub fn best_days(sessions: &Vec<SessionRecord>) -> (r: Vec<BucketStat>)
    requires
        log_ok(sessions@),
    ensures
        is_bucket_ranking(sessions@, true, TOP_DAYS as int, r@),
{
    ranked_buckets(sessions, true, TOP_DAYS)
}

// ---------------------------------------------------------------------------
// Weekly summary

/// Local midnight starting the Monday of the week that contains `now`, in
/// local wall-clock seconds.
pub open spec fn week_start(now: LocalStamp) -> int {
    (local_day(now) - weekday_of(now)) * SECONDS_PER_DAY
}

/// Seconds of the sessions that started at or after `ws`.
pub open spec fn current_week_total(ss: Seq<SessionRecord>, ws: int) -> nat
    decreases ss.len(),
{
    if ss.len() == 0 {
        0
    } else {
        current_week_total(ss.drop_last(), ws) + if ss.last().start_time.local_seconds() >= ws {
            ss.last().duration_seconds as nat
        } else {
            0nat
        }
    }
}

/// The number of sessions that started at or after `ws`.
pub open spec fn current_week_count(ss: Seq<SessionRecord>, ws: int) -> nat
    decreases ss.len(),
{
    if ss.len() == 0 {
        0
    } else {
        current_week_count(ss.drop_last(), ws) + if ss.last().start_time.local_seconds() >= ws {
            1nat
        } else {
            0nat
        }
    }
}

/// Seconds of the sessions that started in the seven days before `ws`.
pub open spec fn previous_week_total(ss: Seq<SessionRecord>, ws: int) -> nat
    decreases ss.len(),
{
    if ss.len() == 0 {
        0
    } else {
        previous_week_total(ss.drop_last(), ws) + if ws - 7 * SECONDS_PER_DAY
            <= ss.last().start_time.local_seconds() < ws {
            ss.last().duration_seconds as nat
        } else {
            0nat
        }
    }
}

/// This week's and last week's focused time, and this week's session count.
#[derive(Clone, Copy, Debug, PartialEq, Eq, Structural)]
pub struct WeekTotals {
    pub current_seconds: u128,
    pub previous_seconds: u128,
    pub current_sessions: u64,
}

proof fn lemma_week_bounds(ss: Seq<SessionRecord>, ws: int)
    requires
        forall|k: int| 0 <= k < ss.len() ==> (#[trigger] ss[k]).wf(),
    ensures
        current_week_total(ss, ws) <= ss.len() * MAX_SESSION_SECONDS,
        previous_week_total(ss, ws) <= ss.len() * MAX_SESSION_SECONDS,
        current_week_count(ss, ws) <= ss.len(),
    decreases ss.len(),
{
    if ss.len() > 0 {
        assert forall|k: int| 0 <= k < ss.drop_last().len() implies (
        #[trigger] ss.drop_last()[k]).wf() by {
            assert(ss.drop_last()[k] == ss[k]);
        }
        lemma_week_bounds(ss.drop_last(), ws);
        assert(ss.last().wf());
        assert((ss.len() - 1) * MAX_SESSION_SECONDS + MAX_SESSION_SECONDS == ss.len()
            * MAX_SESSION_SECONDS) by (nonlinear_arith);
    }
}

/// The focused time of the week containing `now` (from Monday 00:00 local
/// time) and of the week before it, with this week's session count.
pub fn weekly_summary(sessions: &Vec<SessionRecord>, now: LocalStamp) -> (r: WeekTotals)
    requires
        log_ok(sessions@),
        now.wf(),
    ensures
        r.current_seconds == current_week_total(sessions@, week_start(now)),
        r.previous_seconds == previous_week_total(sessions@, week_start(now)),
        r.current_sessions == current_week_count(sessions@, week_start(now)),
{
    let day = local_day_number(now);
    let (_, weekday) = local_hour_and_weekday(now);
    let ws: i64 = (day - weekday as i64) * SECONDS_PER_DAY;
    let prev: i64 = ws - 7 * SECONDS_PER_DAY;
    let n = sessions.len();
    let mut current: u128 = 0;
    let mut previous: u128 = 0;
    let mut count: u64 = 0;
    let mut i: usize = 0;
    while i < n
        invariant
            n == sessions@.len(),
            log_ok(sessions@),
            i <= n,
            ws as int == week_start(now),
            prev as int == ws - 7 * SECONDS_PER_DAY,
            current == current_week_total(sessions@.subrange(0, i as int), ws as int),
            previous == previous_week_total(sessions@.subrange(0, i as int), ws as int),
            count == current_week_count(sessions@.subrange(0, i as int), ws as int),
        decreases n - i,
    {
        let s = &sessions[i];
        let ghost pre = sessions@.subrange(0, i + 1);
        proof {
            assert(pre.drop_last() =~= sessions@.subrange(0, i as int));
            assert(forall|k: int| 0 <= k < pre.len() ==> pre[k] == sessions@[k]);
            lemma_week_bounds(pre, ws as int);
            assert(pre.len() * MAX_SESSION_SECONDS <= 4294967296 * MAX_SESSION_SECONDS) by (
            nonlinear_arith)
                requires
                    pre.len() <= 4294967296,
            ;
            assert(pre.last() == *s);
            assert(s.wf());
        }
        let start = local_seconds_of(s.start_time);
        if start >= ws {
            current = current + s.duration_seconds as u128;
            count = count + 1;
        } else if start >= prev && start < ws {
            previous = previous + s.duration_seconds as u128;
        }
        i = i + 1;
    }
    assert(sessions@.subrange(0, n as int) =~= sessions@);
    WeekTotals { current_seconds: current, previous_seconds: previous, current_sessions: count }
}

// ---------------------------------------------------------------------------
// Daily totals

/// The local calendar day a session started on.
pub open spec fn session_day(s: SessionRecord) -> int {
    local_day(s.start_time)
}

/// Seconds of the sessions that started on local day `d`.
pub open spec fn day_total(ss: Seq<SessionRecord>, d: int) -> nat
    decreases ss.len(),
{
    if ss.len() == 0 {
        0
    } else {
        day_total(ss.drop_last(), d) + if session_day(ss.last()) == d {
            ss.last().duration_seconds as nat
        } else {
            0nat
        }
    }
}

/// Some session started on local day `d`.
pub open spec fn has_session_on(ss: Seq<SessionRecord>, d: int) -> bool {
    exists|k: int| 0 <= k < ss.len() && #[trigger] session_day(ss[k]) == d
}

/// The focused time of one calendar day (days counted from 1970-01-01).
#[derive(Clone, Copy, Debug, PartialEq, Eq, Structural)]
pub struct DayTotal {
    pub day: i64,
    pub total_seconds: u128,
}

/// `r` lists, in increasing order, every day on which a session started,
/// with the day's total.
pub open spec fn is_daily_totals(ss: Seq<SessionRecord>, r: Seq<DayTotal>) -> bool {
    &&& forall|i: int, j: int| 0 <= i < j < r.len() ==> (#[trigger] r[i]).day < (#[trigger] r[j]).day
    &&& forall|i: int|
        0 <= i < r.len() ==> (#[trigger] r[i]).total_seconds == day_total(ss, r[i].day as int)
            && has_session_on(ss, r[i].day as int)
    &&& forall|d: int| #[trigger] has_session_on(ss, d) ==> exists|i: int| 0 <= i < r.len() && (#[trigger] r[i]).day == d
}

proof fn lemma_day_total_bound(ss: Seq<SessionRecord>, d: int)
    requires
        forall|k: int| 0 <= k < ss.len() ==> (#[trigger] ss[k]).wf(),
    ensures
        day_total(ss, d) <= ss.len() * MAX_SESSION_SECONDS,
    decreases ss.len(),
{
    if ss.len() > 0 {
        assert forall|k: int| 0 <= k < ss.drop_last().len() implies (
        #[trigger] ss.drop_last()[k]).wf() by {
            assert(ss.drop_last()[k] == ss[k]);
        }
        lemma_day_total_bound(ss.drop_last(), d);
        assert(ss.last().wf());
        assert((ss.len() - 1) * MAX_SESSION_SECONDS + MAX_SESSION_SECONDS == ss.len()
            * MAX_SESSION_SECONDS) by (nonlinear_arith);
    }
}

proof fn lemma_has_session_extend(ss: Seq<SessionRecord>, d: int)
    requires
        ss.len() > 0,
    ensures
        has_session_on(ss, d) == (has_session_on(ss.drop_last(), d) || session_day(ss.last()) == d),
{
    if has_session_on(ss, d) {
        let k = choose|k: int| 0 <= k < ss.len() && #[trigger] session_day(ss[k]) == d;
        if k < ss.len() - 1 {
            assert(ss.drop_last()[k] == ss[k]);
        }
    }
    if has_session_on(ss.drop_last(), d) {
        let k = choose|k: int| 0 <= k < ss.drop_last().len() && #[trigger] session_day(ss.drop_last()[k]) == d;
        assert(ss[k] == ss.drop_last()[k]);
    }
    if session_day(ss.last()) == d {
        assert(session_day(ss[ss.len() - 1]) == d);
    }
}

proof fn lemma_session_day_fits(s: SessionRecord)
    requires
        s.wf(),
    ensures
        i64::MIN < session_day(s) < i64::MAX,
{
    let x = s.start_time.local_seconds();
    assert(-2251799813685248int < x < 2251799813685248int);
    vstd::arithmetic::div_mod::lemma_fundamental_div_mod(x, 86400);
    assert(0 <= x % 86400 < 86400);
}

/// The focused time per calendar day, in day order.
pub fn daily_totals(sessions: &Vec<SessionRecord>) -> (r: Vec<DayTotal>)
    requires
        log_ok(sessions@),
    ensures
        is_daily_totals(sessions@, r@),
{
    let n = sessions.len();
    let mut totals: BTreeMap<i64, u128> = BTreeMap::new();
    let mut i: usize = 0;
    while i < n
        invariant
            n == sessions@.len(),
            log_ok(sessions@),
            i <= n,
            forall|d: i64|
                #[trigger] totals@.contains_key(d) <==> has_session_on(
                    sessions@.subrange(0, i as int),
                    d as int,
                ),
            forall|d: i64|
                #[trigger] totals@.contains_key(d) ==> totals@[d] == day_total(
                    sessions@.subrange(0, i as int),
                    d as int,
                ),
        decreases n - i,
    {
        let s = &sessions[i];
        let ghost p = sessions@.subrange(0, i as int);
        let ghost pre = sessions@.subrange(0, i + 1);
        proof {
            assert(pre.drop_last() =~= p);
            assert(pre.last() == *s);
            assert(forall|k: int| 0 <= k < pre.len() ==> pre[k] == sessions@[k]);
            assert(s.wf());
        }
        let d = local_day_number(s.start_time);
        let current: u128 = match totals.get(&d) {
            Some(v) => *v,
            None => 0,
        };
        proof {
            lemma_day_total_bound(pre, d as int);
            assert(pre.len() * MAX_SESSION_SECONDS <= 4294967296 * MAX_SESSION_SECONDS) by (
            nonlinear_arith)
                requires
                    pre.len() <= 4294967296,
            ;
            if !totals@.contains_key(d) {
                lemma_day_total_zero(p, d as int);
            }
            assert(current == day_total(p, d as int));
            assert(day_total(pre, d as int) == day_total(p, d as int) + s.duration_seconds);
        }
        totals.insert(d, current + s.duration_seconds as u128);
        proof {
            assert forall|x: i64| #[trigger] totals@.contains_key(x) <==> has_session_on(pre, x as int) by {
                lemma_has_session_extend(pre, x as int);
            }
            assert forall|x: i64| #[trigger] totals@.contains_key(x) implies totals@[x] == day_total(pre, x as int) by {
                if x != d {
                    assert(day_total(pre, x as int) == day_total(p, x as int));
                }
            }
        }
        i = i + 1;
    }
    assert(sessions@.subrange(0, n as int) =~= sessions@);
    let out = totals_in_day_order(&totals);
    proof {
        assert forall|x: int| #[trigger] has_session_on(sessions@, x) implies exists|q: int|
            0 <= q < out@.len() && (#[trigger] out@[q]).day == x by {
            let k = choose|k: int| 0 <= k < sessions@.len() && #[trigger] session_day(sessions@[k]) == x;
            lemma_session_day_fits(sessions@[k]);
            assert(totals@.contains_key(x as i64));
        }
    }
    out
}

proof fn lemma_day_total_zero(ss: Seq<SessionRecord>, d: int)
    requires
        !has_session_on(ss, d),
    ensures
        day_total(ss, d) == 0,
    decreases ss.len(),
{
    if ss.len() > 0 {
        lemma_has_session_extend(ss, d);
        lemma_day_total_zero(ss.drop_last(), d);
    }
}

// ---------------------------------------------------------------------------
// Quality model inputs and readings

/// The features (start hour, weekday) and class numbers the quality model
/// is trained on, one per session, in log order.
pub fn quality_training_data(sessions: &Vec<SessionRecord>) -> (r: (Vec<(u8, u8)>, Vec<usize>))
    ensures
        r.0@.len() == sessions@.len(),
        r.1@.len() == sessions@.len(),
        forall|k: int|
            0 <= k < sessions@.len() ==> #[trigger] r.0@[k] == (
                sessions@[k].hour_of_day,
                sessions@[k].day_of_week,
            ),
        forall|k: int|
            0 <= k < sessions@.len() ==> #[trigger] r.1@[k] == label_number(
                quality_of(sessions@[k]),
            ),
{
    let n = sessions.len();
    let mut features: Vec<(u8, u8)> = Vec::new();
    let mut labels: Vec<usize> = Vec::new();
    let mut i: usize = 0;
    while i < n
        invariant
            n == sessions@.len(),
            i <= n,
            features@.len() == i,
            labels@.len() == i,
            forall|k: int|
                0 <= k < i ==> #[trigger] features@[k] == (
                    sessions@[k].hour_of_day,
                    sessions@[k].day_of_week,
                ),
            forall|k: int|
                0 <= k < i ==> #[trigger] labels@[k] == label_number(quality_of(sessions@[k])),
        decreases n - i,
    {
        features.push((sessions[i].hour_of_day, sessions[i].day_of_week));
        labels.push(label_session(&sessions[i]).as_label());
        i = i + 1;
    }
    (features, labels)
}

/// How many of the first `n` positions agree.
pub open spec fn agreements(p: Seq<usize>, a: Seq<usize>, n: int) -> nat
    decreases n,
{
    if n <= 0 {
        0
    } else {
        agreements(p, a, n - 1) + if p[n - 1] == a[n - 1] {
            1nat
        } else {
            0nat
        }
    }
}

/// How many predictions equal the actual class, position by position over
/// the shorter of the two lists.
pub fn count_matches(predicted: &Vec<usize>, actual: &Vec<usize>) -> (r: usize)
    ensures
        r == agreements(
            predicted@,
            actual@,
            if predicted@.len() < actual@.len() {
                predicted@.len() as int
            } else {
                actual@.len() as int
            },
        ),
{
    let n = if predicted.len() < actual.len() {
        predicted.len()
    } else {
        actual.len()
    };
    let mut c: usize = 0;
    let mut i: usize = 0;
    while i < n
        invariant
            n <= predicted@.len(),
            n <= actual@.len(),
            i <= n,
            c == agreements(predicted@, actual@, i as int),
            c <= i,
        decreases n - i,
    {
        if predicted[i] == actual[i] {
            c = c + 1;
        }
        i = i + 1;
    }
    c
}

/// The short English name of a weekday counted from Monday.
pub open spec fn day_label(day: int) -> Seq<char> {
    if day == 0 {
        "Mon"@
    } else if day == 1 {
        "Tue"@
    } else if day == 2 {
        "Wed"@
    } else if day == 3 {
        "Thu"@
    } else if day == 4 {
        "Fri"@
    } else if day == 5 {
        "Sat"@
    } else if day == 6 {
        "Sun"@
    } else {
        "Unknown"@
    }
}

/// The short name of a weekday counted from Monday.
pub fn day_name(day: u8) -> (r: &'static str)
    ensures
        r@ == day_label(day as int),
{
    if day == 0 {
        "Mon"
    } else if day == 1 {
        "Tue"
    } else if day == 2 {
        "Wed"
    } else if day == 3 {
        "Thu"
    } else if day == 4 {
        "Fri"
    } else if day == 5 {
        "Sat"
    } else if day == 6 {
        "Sun"
    } else {
        "Unknown"
    }
}

/// Number of (weekday, hour) slots the quality model is queried on.
pub const WEEK_SLOTS: usize = 168;

/// How many predicted quality windows are reported.
pub const MAX_QUALITY_WINDOWS: usize = 12;

/// The label of the slot `day * 24 + hour`, such as `Tue 9:00`.
pub open spec fn slot_label(slot: int) -> Seq<char> {
    day_label(slot / 24) + " "@ + decimal((slot % 24) as nat) + ":00"@
}

/// The labels of the slots among the first `n` that the model predicts as `Quality`.
pub open spec fn quality_slots(predictions: Seq<usize>, n: int) -> Seq<Seq<char>>
    decreases n,
{
    if n <= 0 {
        Seq::empty()
    } else {
        let rest = quality_slots(predictions, n - 1);
        if quality_of_label(predictions[n - 1] as nat) == SessionQuality::Quality {
            rest.push(slot_label(n - 1))
        } else {
            rest
        }
    }
}

/// The slots, Monday 0:00 first, that the quality model predicts as
/// `Quality`, at most twelve. `predictions[day * 24 + hour]` is the model's
/// class for that weekday and hour.
pub fn predicted_quality_windows(predictions: &Vec<usize>) -> (r: Vec<String>)
    requires
        predictions@.len() == WEEK_SLOTS,
    ensures
        r@.map_values(|s: String| s@) == {
            let all = quality_slots(predictions@, WEEK_SLOTS as int);
            if all.len() > MAX_QUALITY_WINDOWS {
                all.subrange(0, MAX_QUALITY_WINDOWS as int)
            } else {
                all
            }
        },
{
    let mut windows: Vec<String> = Vec::new();
    let mut slot: usize = 0;
    while slot < WEEK_SLOTS
        invariant
            predictions@.len() == WEEK_SLOTS,
            slot <= WEEK_SLOTS,
            windows@.map_values(|s: String| s@) == quality_slots(predictions@, slot as int),
        decreases WEEK_SLOTS - slot,
    {
        let day = slot / 24;
        let hour = slot % 24;
        if SessionQuality::from_label(predictions[slot]) == SessionQuality::Quality {
            let mut w = owned(day_name(day as u8));
            w.append(" ");
            push_decimal(&mut w, hour as u128);
            w.append(":00");
            proof {
                assert(w@ == slot_label(slot as int));
                assert(windows@.push(w).map_values(|s: String| s@) =~= windows@.map_values(|s: String| s@).push(w@));
            }
            windows.push(w);
        }
        slot = slot + 1;
    }
    let ghost all = windows@.map_values(|s: String| s@);
    if windows.len() > MAX_QUALITY_WINDOWS {
        windows.truncate(MAX_QUALITY_WINDOWS);
        assert(windows@.map_values(|s: String| s@) =~= all.subrange(0, MAX_QUALITY_WINDOWS as int));
    }
    windows
}

/// `items` separated by a comma and a space.
pub open spec fn comma_list(items: Seq<Seq<char>>) -> Seq<char>
    decreases items.len(),
{
    if items.len() == 0 {
        Seq::empty()
    } else if items.len() == 1 {
        items[0]
    } else {
        comma_list(items.drop_last()) + ", "@ + items.last()
    }
}

/// The quality model's notes: how it was trained, its training accuracy
/// (percent, already rendered) and the windows it predicts as `Quality`.
pub open spec fn tree_rules(accuracy: Seq<char>, windows: Seq<Seq<char>>) -> Seq<char> {
    "Decision tree trained (Gini, max_depth=4, min_samples_split=5).\nTraining accuracy: "@ + accuracy
        + if windows.len() == 0 {
        "%.\nNo hour/day window is currently predicted as Quality."@
    } else {
        "%.\nPredicted quality windows: "@ + comma_list(windows)
    }
}

/// Writes the quality model's notes from its rendered training accuracy and
/// its predicted quality windows.
pub fn tree_rules_text(accuracy: &str, windows: &Vec<String>) -> (r: String)
    ensures
        r@ == tree_rules(accuracy@, windows@.map_values(|s: String| s@)),
{
    let ghost items = windows@.map_values(|s: String| s@);
    let mut out = owned("Decision tree trained (Gini, max_depth=4, min_samples_split=5).\nTraining accuracy: ");
    out.append(accuracy);
    let n = windows.len();
    if n == 0 {
        out.append("%.\nNo hour/day window is currently predicted as Quality.");
        return out;
    }
    out.append("%.\nPredicted quality windows: ");
    let ghost head = out@;
    let mut i: usize = 0;
    while i < n
        invariant
            n == windows@.len(),
            items == windows@.map_values(|s: String| s@),
            i <= n,
            out@ == head + comma_list(items.subrange(0, i as int)),
        decreases n - i,
    {
        proof {
            assert(items.subrange(0, i + 1).drop_last() =~= items.subrange(0, i as int));
        }
        if i > 0 {
            out.append(", ");
        }
        out.append(windows[i].as_str());
        proof {
            if i == 0 {
                assert(out@ =~= head + comma_list(items.subrange(0, 1)));
            } else {
                assert(out@ =~= head + comma_list(items.subrange(0, i + 1)));
            }
        }
        i = i + 1;
    }
    assert(items.subrange(0, n as int) =~= items);
    out
}

// ---------------------------------------------------------------------------
// Durations as text

/// Bound on the seconds handed to the duration formatters.
pub const DURATION_TEXT_LIMIT: i128 = 0x1_0000_0000_0000_0000_0000_0000i128;

/// `mag / den` seconds in whole minutes, halves rounded up.
pub open spec fn rounded_minutes(mag: nat, den: nat) -> nat {
    (2 * mag + 60 * den) / (120 * den)
}

/// How a duration of `num / den` seconds is written: `below_one` for less
/// than a minute, else the rounded minutes as `Nm`, or `Hh Mm` from an
/// hour on, negative durations with a leading minus.
pub open spec fn minutes_text(num: int, den: nat, below_one: Seq<char>) -> Seq<char> {
    if 0 < num && num < 60 * den {
        below_one
    } else {
        let mag: nat = if num < 0 {
            (-num) as nat
        } else {
            num as nat
        };
        let rm = rounded_minutes(mag, den);
        let sign = if num < 0 && rm > 0 {
            "-"@
        } else {
            ""@
        };
        if rm / 60 == 0 {
            sign + decimal(rm) + "m"@
        } else {
            sign + decimal(rm / 60) + "h "@ + decimal(rm % 60) + "m"@
        }
    }
}

/// Writes `num / den` seconds as minutes (see `minutes_text`).
pub fn minutes_text_exec(num: i128, den: u64, below_one: &str) -> (r: String)
    requires
        den > 0,
        -DURATION_TEXT_LIMIT < num < DURATION_TEXT_LIMIT,
    ensures
        r@ == minutes_text(num as int, den as nat, below_one@),
{
    if num > 0 && (num as u128) < 60 * (den as u128) {
        return owned(below_one);
    }
    let mag: u128 = if num < 0 {
        (-num) as u128
    } else {
        num as u128
    };
    let rm: u128 = (2 * mag + 60 * (den as u128)) / (120 * (den as u128));
    let mut out = String::new();
    if num < 0 && rm > 0 {
        out.append("-");
    }
    let ghost sign = out@;
    if rm / 60 == 0 {
        push_decimal(&mut out, rm);
        out.append("m");
    } else {
        push_decimal(&mut out, rm / 60);
        out.append("h ");
        push_decimal(&mut out, rm % 60);
        out.append("m");
    }
    proof {
        reveal_strlit("");
        assert(sign =~= (if num < 0 && rm > 0 { "-"@ } else { ""@ }));
    }
    out
}

/// A duration in minutes for the terminal, such as `1h 5m`, `42m` or `<1m`;
/// the duration is `seconds / sessions` seconds (a total, or a mean).
pub fn format_minutes(seconds: i128, sessions: u64) -> (r: String)
    requires
        sessions > 0,
        -DURATION_TEXT_LIMIT < seconds < DURATION_TEXT_LIMIT,
    ensures
        r@ == minutes_text(seconds as int, sessions as nat, "<1m"@),
{
    minutes_text_exec(seconds, sessions, "<1m")
}

/// This week against last week, signed, such as `+2h 15m vs last week`.
pub open spec fn delta_text(delta: int) -> Seq<char> {
    if delta >= 0 {
        "+"@ + minutes_text(delta, 1, "<1m"@) + " vs last week"@
    } else {
        "-"@ + minutes_text(-delta, 1, "<1m"@) + " vs last week"@
    }
}

/// Writes the change against last week, given in seconds.
pub fn format_delta_minutes(delta_seconds: i128) -> (r: String)
    requires
        -DURATION_TEXT_LIMIT < delta_seconds < DURATION_TEXT_LIMIT,
    ensures
        r@ == delta_text(delta_seconds as int),
{
    let mut out = String::new();
    if delta_seconds >= 0 {
        out.append("+");
        let m = format_minutes(delta_seconds, 1);
        out.append(m.as_str());
    } else {
        out.append("-");
        let m = format_minutes(-delta_seconds, 1);
        out.append(m.as_str());
    }
    out.append(" vs last week");
    out
}

// ---------------------------------------------------------------------------
// The whole pipeline

/// Seconds of the sessions that started on local day `d`, computed directly.
fn day_sum(sessions: &Vec<SessionRecord>, d: i64) -> (r: u128)
    requires
        log_ok(sessions@),
    ensures
        r == day_total(sessions@, d as int),
{
    let n = sessions.len();
    let mut total: u128 = 0;
    let mut i: usize = 0;
    while i < n
        invariant
            n == sessions@.len(),
            log_ok(sessions@),
            i <= n,
            total == day_total(sessions@.subrange(0, i as int), d as int),
        decreases n - i,
    {
        let s = &sessions[i];
        let ghost pre = sessions@.subrange(0, i + 1);
        proof {
            assert(pre.drop_last() =~= sessions@.subrange(0, i as int));
            assert(pre.last() == *s);
            assert(forall|k: int| 0 <= k < pre.len() ==> pre[k] == sessions@[k]);
            assert(s.wf());
            lemma_day_total_bound(pre, d as int);
            assert(pre.len() * MAX_SESSION_SECONDS <= 4294967296 * MAX_SESSION_SECONDS) by (
            nonlinear_arith)
                requires
                    pre.len() <= 4294967296,
            ;
        }
        if local_day_number(s.start_time) == d {
            total = total + s.duration_seconds as u128;
        }
        i = i + 1;
    }
    assert(sessions@.subrange(0, n as int) =~= sessions@);
    total
}

/// The focused time of each of the seven local days ending with the day of
/// `now`, oldest first, days without sessions included with zero.
pub fn last_seven_days(sessions: &Vec<SessionRecord>, now: LocalStamp) -> (r: Vec<DayTotal>)
    requires
        log_ok(sessions@),
        now.wf(),
    ensures
        r@.len() == 7,
        forall|k: int|
            0 <= k < 7 ==> (#[trigger] r@[k]).day == local_day(now) - 6 + k && r@[k].total_seconds
                == day_total(sessions@, local_day(now) - 6 + k),
{
    let today = local_day_number(now);
    let mut out: Vec<DayTotal> = Vec::new();
    let mut k: i64 = 0;
    while k < 7
        invariant
            0 <= k <= 7,
            today as int == local_day(now),
            log_ok(sessions@),
            out@.len() == k,
            forall|q: int|
                0 <= q < k ==> (#[trigger] out@[q]).day == local_day(now) - 6 + q
                    && out@[q].total_seconds == day_total(sessions@, local_day(now) - 6 + q),
        decreases 7 - k,
    {
        let d = today - 6 + k;
        out.push(DayTotal { day: d, total_seconds: day_sum(sessions, d) });
        k = k + 1;
    }
    out
}

/// Everything the statistics layer knows about the log at time `now`.
pub struct AnalyticsResult {
    pub total_sessions: usize,
    pub interrupted_sessions: usize,
    pub quality_sessions: usize,
    pub top_focus_hours: Vec<BucketStat>,
    pub best_days: Vec<BucketStat>,
    pub week: WeekTotals,
    pub daily_totals: Vec<DayTotal>,
    pub last_7_day_totals: Vec<DayTotal>,
}

/// Computes the statistics of the session log at time `now`.
pub fn run_analytics(sessions: &Vec<SessionRecord>, now: LocalStamp) -> (r: AnalyticsResult)
    requires
        log_ok(sessions@),
        now.wf(),
    ensures
        r.total_sessions == sessions@.len(),
        r.interrupted_sessions == interrupted_in(sessions@),
        r.quality_sessions == quality_in(sessions@),
        is_bucket_ranking(sessions@, false, TOP_HOURS as int, r.top_focus_hours@),
        is_bucket_ranking(sessions@, true, TOP_DAYS as int, r.best_days@),
        r.week.current_seconds == current_week_total(sessions@, week_start(now)),
        r.week.previous_seconds == previous_week_total(sessions@, week_start(now)),
        r.week.current_sessions == current_week_count(sessions@, week_start(now)),
        is_daily_totals(sessions@, r.daily_totals@),
        r.last_7_day_totals@.len() == 7,
        forall|k: int|
            0 <= k < 7 ==> (#[trigger] r.last_7_day_totals@[k]).day == local_day(now) - 6 + k
                && r.last_7_day_totals@[k].total_seconds == day_total(
                sessions@,
                local_day(now) - 6 + k,
            ),
        crate::summary::summary_ready(&r),
{
    proof {
        lemma_week_bounds(sessions@, week_start(now));
        assert forall|b: int| 0 <= b < 7 implies #[trigger] bucket_total(sessions@, true, b) < DURATION_TEXT_LIMIT by {
            lemma_bucket_bounds(sessions@, true, b);
        }
        assert(sessions@.len() * MAX_SESSION_SECONDS <= 4294967295 * MAX_SESSION_SECONDS) by (nonlinear_arith)
            requires sessions@.len() <= 4294967295;
        assert forall|d: int| #[trigger] day_total(sessions@, d) < DURATION_TEXT_LIMIT by {
            lemma_day_total_bound(sessions@, d);
        }
    }
    AnalyticsResult {
        total_sessions: sessions.len(),
        interrupted_sessions: interrupted_count(sessions),
        quality_sessions: quality_count(sessions),
        top_focus_hours: top_focus_hours(sessions),
        best_days: best_days(sessions),
        week: weekly_summary(sessions, now),
        daily_totals: daily_totals(sessions),
        last_7_day_totals: last_seven_days(sessions, now),
    }
}

/// Whether the trend model has enough calendar days to run.
pub fn has_trend_data(result: &AnalyticsResult) -> (r: bool)
    ensures
        r == (result.daily_totals@.len() >= TREND_MIN_DAYS),
{
    result.daily_totals.len() >= TREND_MIN_DAYS
}

/// Whether the quality model has enough sessions to run.
pub fn has_tree_data(result: &AnalyticsResult) -> (r: bool)
    ensures
        r == (result.total_sessions >= TREE_MIN_SESSIONS),
{
    result.total_sessions >= TREE_MIN_SESSIONS
}

/// How many more sessions the quality model needs.
pub fn sessions_until_model(total_sessions: usize) -> (r: usize)
    ensures
        r == (if total_sessions >= TREE_MIN_SESSIONS {
            0
        } else {
            (TREE_MIN_SESSIONS - total_sessions) as usize
        }),
{
    TREE_MIN_SESSIONS.saturating_sub(total_sessions)
}

// ---------------------------------------------------------------------------
// Laws

/// Seconds of all sessions.
pub open spec fn total_seconds(ss: Seq<SessionRecord>) -> nat
    decreases ss.len(),
{
    if ss.len() == 0 {
        0
    } else {
        total_seconds(ss.drop_last()) + ss.last().duration_seconds as nat
    }
}

/// This week and last week never count a session twice: together they hold
/// at most the whole log's time.
pub proof fn law_weeks_are_disjoint(ss: Seq<SessionRecord>, ws: int)
    ensures
        current_week_total(ss, ws) + previous_week_total(ss, ws) <= total_seconds(ss),
    decreases ss.len(),
{
    if ss.len() > 0 {
        law_weeks_are_disjoint(ss.drop_last(), ws);
    }
}

/// The interruption and quality counts never exceed the number of sessions,
/// so the rates derived from them stay within 0–100%.
pub proof fn law_counts_within_log(ss: Seq<SessionRecord>)
    ensures
        interrupted_in(ss) <= ss.len(),
        quality_in(ss) <= ss.len(),
{
    lemma_count_le_len(ss);
}

/// For a recorded session, `Distracted` means exactly interrupted, and
/// `Quality` means exactly at least twenty minutes.
pub proof fn law_quality_of_recorded_sessions(s: SessionRecord)
    requires
        s.interrupted == (s.duration_seconds < crate::session::INTERRUPTED_BELOW_SECONDS),
    ensures
        (quality_of(s) == SessionQuality::Distracted) == s.interrupted,
        (quality_of(s) == SessionQuality::Quality) == (s.duration_seconds >= 1200),
{
}

/// The first of the top focus hours has at least as much focused time as
/// any hour with a session.
pub proof fn law_top_hour_dominates(ss: Seq<SessionRecord>, r: Seq<BucketStat>, h: int)
    requires
        is_bucket_ranking(ss, false, TOP_HOURS as int, r),
        r.len() > 0,
        0 <= h < 24,
        bucket_count(ss, false, h) > 0,
    ensures
        r[0].total_seconds >= bucket_total(ss, false, h),
{
    let first = r[0];
    assert(first.total_seconds == bucket_total(ss, false, first.bucket as int));
    if exists|i: int| 0 <= i < r.len() && (#[trigger] r[i]).bucket == h {
        let i = choose|i: int| 0 <= i < r.len() && (#[trigger] r[i]).bucket == h;
        if i > 0 {
            assert(bucket_before(ss, false, r[0].bucket as int, r[i].bucket as int));
        }
    } else {
        assert(bucket_count(ss, false, h) > 0);
        let last = r.len() - 1;
        assert(r.last() == r[last]);
        assert(bucket_before(ss, false, r.last().bucket as int, h));
        if last > 0 {
            assert(bucket_before(ss, false, r[0].bucket as int, r[last].bucket as int));
        }
    }
}

/// The seconds listed in a run of daily totals.
pub open spec fn listed_seconds(r: Seq<DayTotal>) -> nat
    decreases r.len(),
{
    if r.len() == 0 {
        0
    } else {
        listed_seconds(r.drop_last()) + r.last().total_seconds as nat
    }
}

/// The log's seconds on the days that `r` lists.
spec fn seconds_on_days(ss: Seq<SessionRecord>, r: Seq<DayTotal>) -> nat
    decreases r.len(),
{
    if r.len() == 0 {
        0
    } else {
        seconds_on_days(ss, r.drop_last()) + day_total(ss, r.last().day as int)
    }
}

/// How often day `d` is listed in `r`.
spec fn times_listed(r: Seq<DayTotal>, d: int) -> nat
    decreases r.len(),
{
    if r.len() == 0 {
        0
    } else {
        times_listed(r.drop_last(), d) + if r.last().day == d {
            1nat
        } else {
            0nat
        }
    }
}

proof fn lemma_listed_is_day_totals(ss: Seq<SessionRecord>, r: Seq<DayTotal>)
    requires
        forall|i: int| 0 <= i < r.len() ==> (#[trigger] r[i]).total_seconds == day_total(ss, r[i].day as int),
    ensures
        listed_seconds(r) == seconds_on_days(ss, r),
    decreases r.len(),
{
    if r.len() > 0 {
        assert forall|i: int| 0 <= i < r.drop_last().len() implies (#[trigger] r.drop_last()[i]).total_seconds
            == day_total(ss, r.drop_last()[i].day as int) by {
            assert(r.drop_last()[i] == r[i]);
        }
        lemma_listed_is_day_totals(ss, r.drop_last());
        assert(r.last() == r[r.len() - 1]);
    }
}

proof fn lemma_seconds_on_days_step(ss: Seq<SessionRecord>, r: Seq<DayTotal>)
    requires
        ss.len() > 0,
    ensures
        seconds_on_days(ss, r) == seconds_on_days(ss.drop_last(), r) + ss.last().duration_seconds
            * times_listed(r, session_day(ss.last())),
    decreases r.len(),
{
    if r.len() > 0 {
        lemma_seconds_on_days_step(ss, r.drop_last());
        let c = ss.last().duration_seconds as nat;
        let x = r.last().day as int;
        let t = times_listed(r.drop_last(), session_day(ss.last()));
        assert(day_total(ss, x) == day_total(ss.drop_last(), x) + if session_day(ss.last()) == x {
            c
        } else {
            0nat
        });
        if x == session_day(ss.last()) {
            assert(times_listed(r, session_day(ss.last())) == t + 1);
            assert(c * (t + 1) == c * t + c) by (nonlinear_arith);
        } else {
            assert(times_listed(r, session_day(ss.last())) == t);
        }
    } else {
        let c = ss.last().duration_seconds as nat;
        assert(times_listed(r, session_day(ss.last())) == 0);
        assert(c * 0 == 0) by (nonlinear_arith);
    }
}

proof fn lemma_times_listed_once(r: Seq<DayTotal>, d: int)
    requires
        forall|i: int, j: int| 0 <= i < j < r.len() ==> (#[trigger] r[i]).day < (#[trigger] r[j]).day,
    ensures
        (exists|i: int| 0 <= i < r.len() && (#[trigger] r[i]).day == d) ==> times_listed(r, d) == 1,
        !(exists|i: int| 0 <= i < r.len() && (#[trigger] r[i]).day == d) ==> times_listed(r, d) == 0,
    decreases r.len(),
{
    if r.len() > 0 {
        let p = r.drop_last();
        assert forall|i: int, j: int| 0 <= i < j < p.len() implies (#[trigger] p[i]).day < (
        #[trigger] p[j]).day by {
            assert(p[i] == r[i] && p[j] == r[j]);
        }
        lemma_times_listed_once(p, d);
        let last = r.len() - 1;
        assert(r.last() == r[last]);
        if exists|i: int| 0 <= i < p.len() && (#[trigger] p[i]).day == d {
            let i = choose|i: int| 0 <= i < p.len() && (#[trigger] p[i]).day == d;
            assert(r[i] == p[i]);
            assert(r[i].day < r[last].day);
        }
        if exists|i: int| 0 <= i < r.len() && (#[trigger] r[i]).day == d {
            let i = choose|i: int| 0 <= i < r.len() && (#[trigger] r[i]).day == d;
            if i < last {
                assert(p[i] == r[i]);
            }
        } else {
            assert(!(exists|i: int| 0 <= i < p.len() && (#[trigger] p[i]).day == d)) by {
                if exists|i: int| 0 <= i < p.len() && (#[trigger] p[i]).day == d {
                    let i = choose|i: int| 0 <= i < p.len() && (#[trigger] p[i]).day == d;
                    assert(r[i] == p[i]);
                }
            }
            assert(r[last].day != d);
        }
    }
}

proof fn lemma_days_cover_log(ss: Seq<SessionRecord>, r: Seq<DayTotal>)
    requires
        forall|i: int, j: int| 0 <= i < j < r.len() ==> (#[trigger] r[i]).day < (#[trigger] r[j]).day,
        forall|d: int| #[trigger] has_session_on(ss, d) ==> exists|i: int| 0 <= i < r.len() && (#[trigger] r[i]).day == d,
    ensures
        seconds_on_days(ss, r) == total_seconds(ss),
    decreases ss.len(),
{
    if ss.len() == 0 {
        lemma_seconds_on_days_empty(ss, r);
    } else {
        let p = ss.drop_last();
        assert forall|d: int| #[trigger] has_session_on(p, d) implies exists|i: int|
            0 <= i < r.len() && (#[trigger] r[i]).day == d by {
            lemma_has_session_extend(ss, d);
        }
        lemma_days_cover_log(p, r);
        lemma_seconds_on_days_step(ss, r);
        let ds = session_day(ss.last());
        lemma_has_session_extend(ss, ds);
        assert(has_session_on(ss, ds));
        lemma_times_listed_once(r, ds);
    }
}

proof fn lemma_seconds_on_days_empty(ss: Seq<SessionRecord>, r: Seq<DayTotal>)
    requires
        ss.len() == 0,
    ensures
        seconds_on_days(ss, r) == 0,
    decreases r.len(),
{
    if r.len() > 0 {
        lemma_seconds_on_days_empty(ss, r.drop_last());
    }
}

/// The daily totals account for the whole log: each session's time is
/// counted on exactly one day, so the days add up to the log's total.
pub proof fn law_daily_totals_cover_log(ss: Seq<SessionRecord>, r: Seq<DayTotal>)
    requires
        is_daily_totals(ss, r),
    ensures
        listed_seconds(r) == total_seconds(ss),
{
    lemma_listed_is_day_totals(ss, r);
    lemma_days_cover_log(ss, r);
}

/// The positions `idx` are the slots below `n` predicted as class 0
/// (`Quality`), in increasing order, and `w` lists their labels.
proof fn lemma_quality_slot_positions(p: Seq<usize>, n: int) -> (idx: Seq<int>)
    requires
        0 <= n <= p.len(),
    ensures
        idx.len() == quality_slots(p, n).len(),
        forall|k: int|
            0 <= k < idx.len() ==> 0 <= #[trigger] idx[k] < n && p[idx[k]] == 0
                && quality_slots(p, n)[k] == slot_label(idx[k]),
        forall|i: int, j: int| 0 <= i < j < idx.len() ==> #[trigger] idx[i] < #[trigger] idx[j],
        forall|t: int| 0 <= t < n && #[trigger] p[t] == 0 ==> idx.contains(t),
    decreases n,
{
    if n <= 0 {
        Seq::empty()
    } else {
        let prev = lemma_quality_slot_positions(p, n - 1);
        let rest = quality_slots(p, n - 1);
        if p[n - 1] == 0 {
            let idx = prev.push(n - 1);
            assert(quality_slots(p, n) == rest.push(slot_label(n - 1)));
            assert forall|k: int| 0 <= k < idx.len() implies 0 <= #[trigger] idx[k] < n && p[idx[k]]
                == 0 && quality_slots(p, n)[k] == slot_label(idx[k]) by {
                if k < prev.len() {
                    assert(idx[k] == prev[k]);
                }
            }
            assert forall|t: int| 0 <= t < n && #[trigger] p[t] == 0 implies idx.contains(t) by {
                if t < n - 1 {
                    let w = choose|w: int| 0 <= w < prev.len() && prev[w] == t;
                    assert(idx[w] == t);
                } else {
                    assert(idx[idx.len() - 1] == t);
                }
            }
            idx
        } else {
            assert(quality_of_label(p[n - 1] as nat) != SessionQuality::Quality);
            assert(quality_slots(p, n) == rest);
            prev
        }
    }
}

/// The predicted quality windows are exactly the slots that the model
/// predicts as class 0 (`Quality`), in week order: every listed label is the
/// label of such a slot, the slots are listed in increasing order, and no
/// such slot is missing. A slot predicted `Shallow` (1) or `Distracted` (2)
/// never appears. `slots` are the slot numbers (`day * 24 + hour`) listed.
pub proof fn law_quality_windows_are_quality_slots(predictions: Seq<usize>) -> (slots: Seq<int>)
    requires
        predictions.len() == WEEK_SLOTS,
    ensures
        slots.len() == quality_slots(predictions, WEEK_SLOTS as int).len(),
        forall|k: int|
            0 <= k < slots.len() ==> 0 <= #[trigger] slots[k] < WEEK_SLOTS && predictions[slots[k]] == 0
                && quality_slots(predictions, WEEK_SLOTS as int)[k] == slot_label(slots[k]),
        forall|i: int, j: int| 0 <= i < j < slots.len() ==> #[trigger] slots[i] < #[trigger] slots[j],
        forall|t: int| 0 <= t < WEEK_SLOTS && #[trigger] predictions[t] == 0 ==> slots.contains(t),
{
    lemma_quality_slot_positions(predictions, WEEK_SLOTS as int)
}

proof fn lemma_interrupted_concat(a: Seq<SessionRecord>, b: Seq<SessionRecord>)
    ensures
        interrupted_in(a + b) == interrupted_in(a) + interrupted_in(b),
        quality_in(a + b) == quality_in(a) + quality_in(b),
    decreases b.len(),
{
    if b.len() == 0 {
        assert(a + b =~= a);
    } else {
        lemma_interrupted_concat(a, b.drop_last());
        assert((a + b).drop_last() =~= a + b.drop_last());
        assert((a + b).last() == b.last());
    }
}

proof fn lemma_all_or_none_flagged(a: Seq<SessionRecord>)
    ensures
        (forall|k: int| 0 <= k < a.len() ==> (#[trigger] a[k]).interrupted) ==> interrupted_in(a)
            == a.len(),
        (forall|k: int| 0 <= k < a.len() ==> !(#[trigger] a[k]).interrupted) ==> interrupted_in(a)
            == 0,
    decreases a.len(),
{
    if a.len() > 0 {
        lemma_all_or_none_flagged(a.drop_last());
        assert(forall|k: int| 0 <= k < a.drop_last().len() ==> a.drop_last()[k] == a[k]);
        assert(a.last() == a[a.len() - 1]);
    }
}

/// The interruption count counts every record whose interrupted flag is set,
/// whatever its length: one record counts one exactly when flagged, logs add
/// up, and a log of flagged records counts all of them. For recorded
/// sessions (flag set exactly below 600 s) a single session counts one
/// exactly when it is shorter than 600 s. The quality count likewise counts
/// each session of at least 1200 s that was not interrupted.
pub proof fn law_interrupted_count_counts_flags(a: Seq<SessionRecord>, b: Seq<SessionRecord>, s: SessionRecord)
    ensures
        interrupted_in(seq![s]) == (if s.interrupted { 1int } else { 0int }),
        s.interrupted == (s.duration_seconds < crate::session::INTERRUPTED_BELOW_SECONDS) ==> interrupted_in(
            seq![s],
        ) == (if s.duration_seconds < 600 { 1int } else { 0int }),
        interrupted_in(a + b) == interrupted_in(a) + interrupted_in(b),
        (forall|k: int| 0 <= k < a.len() ==> (#[trigger] a[k]).interrupted) ==> interrupted_in(a)
            == a.len(),
        (forall|k: int| 0 <= k < a.len() ==> !(#[trigger] a[k]).interrupted) ==> interrupted_in(a)
            == 0,
        quality_in(seq![s]) == (if s.duration_seconds >= 1200 && !s.interrupted { 1int } else { 0int }),
        quality_in(a + b) == quality_in(a) + quality_in(b),
{
    assert(seq![s].drop_last() =~= Seq::<SessionRecord>::empty());
    assert(seq![s].last() == s);
    assert(interrupted_in(Seq::<SessionRecord>::empty()) == 0);
    assert(interrupted_in(seq![s]) == interrupted_in(seq![s].drop_last()) + if s.interrupted {
        1nat
    } else {
        0nat
    });
    assert(quality_in(Seq::<SessionRecord>::empty()) == 0);
    assert(quality_in(seq![s]) == quality_in(seq![s].drop_last()) + if quality_of(s)
        == SessionQuality::Quality {
        1nat
    } else {
        0nat
    });
    lemma_interrupted_concat(a, b);
    lemma_all_or_none_flagged(a);
}

proof fn lemma_week_total_needs_count(ss: Seq<SessionRecord>, ws: int)
    ensures
        current_week_total(ss, ws) > 0 ==> current_week_count(ss, ws) > 0,
        current_week_count(ss, ws) <= ss.len(),
        (forall|k: int| 0 <= k < ss.len() ==> (#[trigger] ss[k]).start_time.local_seconds() >= ws)
            ==> current_week_count(ss, ws) == ss.len(),
    decreases ss.len(),
{
    if ss.len() > 0 {
        lemma_week_total_needs_count(ss.drop_last(), ws);
        assert(forall|k: int| 0 <= k < ss.drop_last().len() ==> ss.drop_last()[k] == ss[k]);
        assert(ss.last() == ss[ss.len() - 1]);
    }
}

/// This week's session count counts every session that started at or after
/// the week start, whatever its length or interruption: adding a session
/// adds one exactly when it started this week; a log that started this week
/// counts all its sessions; and whenever this week holds focused time, it
/// holds a counted session, so the count and the time cover the same sessions.
pub proof fn law_week_count_counts_every_session(ss: Seq<SessionRecord>, s: SessionRecord, ws: int)
    ensures
        current_week_count(ss.push(s), ws) == current_week_count(ss, ws) + (if s.start_time.local_seconds()
            >= ws {
            1int
        } else {
            0int
        }),
        current_week_total(ss.push(s), ws) == current_week_total(ss, ws) + (if s.start_time.local_seconds()
            >= ws {
            s.duration_seconds as int
        } else {
            0int
        }),
        (forall|k: int| 0 <= k < ss.len() ==> (#[trigger] ss[k]).start_time.local_seconds() >= ws)
            ==> current_week_count(ss, ws) == ss.len(),
        current_week_total(ss, ws) > 0 ==> current_week_count(ss, ws) > 0,
        current_week_count(ss, ws) <= ss.len(),
{
    assert(ss.push(s).drop_last() =~= ss);
    lemma_week_total_needs_count(ss, ws);
}

} // verus!
