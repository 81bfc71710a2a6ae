//! Which applications focus mode launches: the per-OS lists of `apps.toml`,
//! cleaned of blank entries, with built-in defaults when none are left.
use vstd::prelude::*;
use crate::text::{trim, trim_str, str_eq, owned, lemma_trim_idempotent};

verus! {

broadcast use vstd::string::group_string_axioms;

/// The `[apps]` table of `apps.toml`: one list of app commands per OS name.
pub struct AppsConfig {
    pub apps: Vec<(String, Vec<String>)>,
}

/// The strings of a list, as character sequences.
pub open spec fn views(v: Seq<String>) -> Seq<Seq<char>> {
    v.map_values(|s: String| s@)
}

impl AppsConfig {
    /// Each OS name occurs once, as in a TOML table.
    pub open spec fn wf(&self) -> bool {
        forall|i: int, j: int|
            0 <= i < self.apps@.len() && 0 <= j < self.apps@.len() && i != j ==> (
            #[trigger] self.apps@[i]).0@ != (#[trigger] self.apps@[j]).0@
    }

    /// The list configured for `os`, if any.
    pub open spec fn lookup(&self, os: Seq<char>) -> Option<Seq<Seq<char>>> {
        if exists|i: int| 0 <= i < self.apps@.len() && (#[trigger] self.apps@[i]).0@ == os {
            let i = choose|i: int| 0 <= i < self.apps@.len() && (#[trigger] self.apps@[i]).0@ == os;
            Some(views(self.apps@[i].1@))
        } else {
            None
        }
    }
}

/// The entries of `apps`, trimmed, with blank ones dropped, in order.
pub open spec fn sanitized(apps: Seq<Seq<char>>) -> Seq<Seq<char>>
    decreases apps.len(),
{
    if apps.len() == 0 {
        Seq::empty()
    } else {
        let rest = sanitized(apps.drop_last());
        let t = trim(apps.last());
        if t.len() > 0 {
            rest.push(t)
        } else {
            rest
        }
    }
}

/// The built-in app list for an OS name (`std::env::consts::OS`).
pub open spec fn default_apps(os: Seq<char>) -> Seq<Seq<char>> {
    if os == "windows"@ {
        seq![
            "C:\\Windows\\System32\\notepad.exe"@,
            "C:\\Users\\Faizy\\AppData\\Local\\BraveSoftware\\Brave-Browser\\Application\\brave.exe"@,
        ]
    } else if os == "macos"@ {
        seq!["TextEdit"@, "Google Chrome"@]
    } else {
        Seq::empty()
    }
}

/// The apps launched when `apps.toml` gives none for `os`.
pub fn default_focus_apps(os: &str) -> (r: Vec<String>)
    ensures
        views(r@) == default_apps(os@),
{
    let mut v: Vec<String> = Vec::new();
    if str_eq(os, "windows") {
        v.push(owned("C:\\Windows\\System32\\notepad.exe"));
        v.push(
            owned(
                "C:\\Users\\Faizy\\AppData\\Local\\BraveSoftware\\Brave-Browser\\Application\\brave.exe",
            ),
        );
    } else if str_eq(os, "macos") {
        v.push(owned("TextEdit"));
        v.push(owned("Google Chrome"));
    }
    assert(views(v@) =~= default_apps(os@));
    v
}

/// The list that `config` gives for `os`.
pub fn select_apps_for_current_os(config: &AppsConfig, os: &str) -> (r: Option<Vec<String>>)
    requires
        config.wf(),
    ensures
        match config.lookup(os@) {
            Some(apps) => r matches Some(v) && views(v@) == apps,
            None => r is None,
        },
{
    let n = config.apps.len();
    let mut i: usize = 0;
    while i < n
        invariant
            n == config.apps@.len(),
            i <= n,
            config.wf(),
            forall|k: int| 0 <= k < i ==> (#[trigger] config.apps@[k]).0@ != os@,
        decreases n - i,
    {
        if str_eq(config.apps[i].0.as_str(), os) {
            let list = &config.apps[i].1;
            let mut out: Vec<String> = Vec::new();
            let m = list.len();
            let mut j: usize = 0;
            while j < m
                invariant
                    m == list@.len(),
                    j <= m,
                    views(out@) =~= views(list@).subrange(0, j as int),
                decreases m - j,
            {
                let item = list[j].clone();
                proof {
                    assert(views(out@.push(item)) =~= views(out@).push(item@));
                }
                out.push(item);
                j = j + 1;
            }
            proof {
                assert(views(out@) =~= views(list@));
                let w = choose|w: int|
                    0 <= w < config.apps@.len() && (#[trigger] config.apps@[w]).0@ == os@;
                assert(w == i) by {
                    if w != i {
                        assert(config.apps@[w].0@ != config.apps@[i as int].0@);
                    }
                }
            }
            return Some(out);
        }
        i = i + 1;
    }
    None
}

/// Trims every entry and drops the blank ones.
pub fn sanitize_apps(apps: Vec<String>) -> (r: Vec<String>)
    ensures
        views(r@) == sanitized(views(apps@)),
{
    let n = apps.len();
    let mut out: Vec<String> = Vec::new();
    let mut i: usize = 0;
    while i < n
        invariant
            n == apps@.len(),
            i <= n,
            views(out@) == sanitized(views(apps@).subrange(0, i as int)),
        decreases n - i,
    {
        let t = trim_str(apps[i].as_str());
        proof {
            let pre = views(apps@).subrange(0, i as int + 1);
            assert(pre.drop_last() =~= views(apps@).subrange(0, i as int));
            assert(pre.last() == apps@[i as int]@);
        }
        if t.unicode_len() > 0 {
            out.push(t);
            assert(views(out@) =~= sanitized(views(apps@).subrange(0, i as int + 1)));
        }
        i = i + 1;
    }
    assert(views(apps@).subrange(0, n as int) =~= views(apps@));
    out
}

/// The apps for `os` from a parsed configuration: the configured list,
/// sanitized, or the defaults when that leaves nothing. The flag tells
/// whether the defaults were used.
pub fn apps_from_config(config: &AppsConfig, os: &str) -> (r: (Vec<String>, bool))
    requires
        config.wf(),
    ensures
        ({
            let cleaned = match config.lookup(os@) {
                Some(apps) => sanitized(apps),
                None => Seq::empty(),
            };
            &&& r.1 == (cleaned.len() == 0)
            &&& views(r.0@) == (if cleaned.len() == 0 {
                default_apps(os@)
            } else {
                cleaned
            })
        }),
{
    let selected = match select_apps_for_current_os(config, os) {
        Some(v) => v,
        None => Vec::new(),
    };
    proof {
        if config.lookup(os@) is None {
            assert(views(selected@) =~= Seq::<Seq<char>>::empty());
        }
    }
    let cleaned = sanitize_apps(selected);
    if cleaned.len() == 0 {
        (default_focus_apps(os), true)
    } else {
        (cleaned, false)
    }
}

/// Every entry that sanitizing keeps is non-blank and already trimmed.
pub proof fn law_sanitized_entries_are_trimmed(apps: Seq<Seq<char>>)
    ensures
        forall|k: int|
            0 <= k < sanitized(apps).len() ==> #[trigger] sanitized(apps)[k].len() > 0 && trim(
                sanitized(apps)[k],
            ) == sanitized(apps)[k],
    decreases apps.len(),
{
    if apps.len() > 0 {
        law_sanitized_entries_are_trimmed(apps.drop_last());
        lemma_trim_idempotent(apps.last());
        let rest = sanitized(apps.drop_last());
        assert forall|k: int| 0 <= k < sanitized(apps).len() implies #[trigger] sanitized(
            apps,
        )[k].len() > 0 && trim(sanitized(apps)[k]) == sanitized(apps)[k] by {
            if k < rest.len() {
                assert(sanitized(apps)[k] == rest[k]);
            }
        }
    }
}

/// Sanitizing a list twice gives the same list as sanitizing it once.
pub proof fn law_sanitize_idempotent(apps: Seq<Seq<char>>)
    ensures
        sanitized(sanitized(apps)) == sanitized(apps),
    decreases apps.len(),
{
    if apps.len() > 0 {
        law_sanitize_idempotent(apps.drop_last());
        let rest = sanitized(apps.drop_last());
        let t = trim(apps.last());
        lemma_trim_idempotent(apps.last());
        if t.len() > 0 {
            assert(rest.push(t).drop_last() =~= rest);
        }
    }
}

proof fn lemma_sanitize_all_kept(apps: Seq<Seq<char>>)
    requires
        forall|k: int| 0 <= k < apps.len() ==> #[trigger] trim(apps[k]).len() > 0,
    ensures
        sanitized(apps) == apps.map_values(|a: Seq<char>| trim(a)),
    decreases apps.len(),
{
    if apps.len() > 0 {
        let p = apps.drop_last();
        assert forall|k: int| 0 <= k < p.len() implies #[trigger] trim(p[k]).len() > 0 by {
            assert(p[k] == apps[k]);
        }
        lemma_sanitize_all_kept(p);
        assert(trim(apps[apps.len() - 1]).len() > 0);
        assert(apps.map_values(|a: Seq<char>| trim(a)) =~= p.map_values(|a: Seq<char>| trim(a)).push(
            trim(apps.last()),
        ));
    } else {
        assert(apps.map_values(|a: Seq<char>| trim(a)) =~= Seq::<Seq<char>>::empty());
    }
}

proof fn lemma_sanitize_nonblank_survives(apps: Seq<Seq<char>>, k: int)
    requires
        0 <= k < apps.len(),
        trim(apps[k]).len() > 0,
    ensures
        sanitized(apps).contains(trim(apps[k])),
    decreases apps.len(),
{
    let p = apps.drop_last();
    if k < apps.len() - 1 {
        assert(p[k] == apps[k]);
        lemma_sanitize_nonblank_survives(p, k);
        let w = choose|w: int| 0 <= w < sanitized(p).len() && sanitized(p)[w] == trim(apps[k]);
        if trim(apps.last()).len() > 0 {
            assert(sanitized(apps)[w] == trim(apps[k]));
        }
    } else {
        assert(apps.last() == apps[k]);
        let r = sanitized(apps);
        assert(r[r.len() - 1] == trim(apps[k]));
    }
}

/// Sanitizing keeps every entry that is not blank, whatever it holds
/// (spaces inside a path included): each entry adds its trimmed text exactly
/// when that text is not empty; a list without blank entries comes back
/// trimmed, entry for entry, in order; and every non-blank entry survives,
/// so a configured list with one non-blank entry never falls back to the
/// defaults.
pub proof fn law_sanitize_keeps_nonblank_entries(apps: Seq<Seq<char>>, x: Seq<char>)
    ensures
        sanitized(apps.push(x)) == (if trim(x).len() > 0 {
            sanitized(apps).push(trim(x))
        } else {
            sanitized(apps)
        }),
        (forall|k: int| 0 <= k < apps.len() ==> #[trigger] trim(apps[k]).len() > 0) ==> sanitized(apps)
            == apps.map_values(|a: Seq<char>| trim(a)),
        forall|k: int|
            0 <= k < apps.len() && #[trigger] trim(apps[k]).len() > 0 ==> sanitized(apps).contains(
                trim(apps[k]),
            ),
        (exists|k: int| 0 <= k < apps.len() && #[trigger] trim(apps[k]).len() > 0) ==> sanitized(
            apps,
        ).len() > 0,
{
    assert(apps.push(x).drop_last() =~= apps);
    if forall|k: int| 0 <= k < apps.len() ==> #[trigger] trim(apps[k]).len() > 0 {
        lemma_sanitize_all_kept(apps);
    }
    assert forall|k: int|
        0 <= k < apps.len() && #[trigger] trim(apps[k]).len() > 0 implies sanitized(apps).contains(
        trim(apps[k]),
    ) by {
        lemma_sanitize_nonblank_survives(apps, k);
    }
    if exists|k: int| 0 <= k < apps.len() && #[trigger] trim(apps[k]).len() > 0 {
        let k = choose|k: int| 0 <= k < apps.len() && #[trigger] trim(apps[k]).len() > 0;
        lemma_sanitize_nonblank_survives(apps, k);
    }
}

} // verus!
