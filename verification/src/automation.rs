//! The rules behind the desktop automations: wallpaper URIs for GNOME's
//! `gsettings`, reading its reply, and when a `pkill` counts as success.
use vstd::prelude::*;
use crate::text::{trim, trim_str, starts_with, has_prefix, push_char, owned};

verus! {

broadcast use vstd::string::group_string_axioms;

/// The URI scheme of local files.
pub open spec fn file_scheme() -> Seq<char> {
    "file://"@
}

/// `s` with every space replaced by `%20`.
pub open spec fn spaces_escaped(s: Seq<char>) -> Seq<char>
    decreases s.len(),
{
    if s.len() == 0 {
        Seq::empty()
    } else {
        spaces_escaped(s.drop_last()) + if s.last() == ' ' {
            "%20"@
        } else {
            seq![s.last()]
        }
    }
}

/// The `file://` URI of a path: spaces escaped, the scheme added unless present.
pub open spec fn file_uri(path: Seq<char>) -> Seq<char> {
    if has_prefix(spaces_escaped(path), file_scheme()) {
        spaces_escaped(path)
    } else {
        file_scheme() + spaces_escaped(path)
    }
}

/// The URI that restores a saved wallpaper: a saved URI as it is, a path
/// turned into a URI.
pub open spec fn restore_uri(saved: Seq<char>) -> Seq<char> {
    if has_prefix(saved, file_scheme()) {
        saved
    } else {
        file_uri(saved)
    }
}

/// `s` without leading occurrences of `c`.
pub open spec fn strip_start(s: Seq<char>, c: char) -> Seq<char>
    decreases s.len(),
{
    if s.len() > 0 && s[0] == c {
        strip_start(s.drop_first(), c)
    } else {
        s
    }
}

/// `s` without trailing occurrences of `c`.
pub open spec fn strip_end(s: Seq<char>, c: char) -> Seq<char>
    decreases s.len(),
{
    if s.len() > 0 && s.last() == c {
        strip_end(s.drop_last(), c)
    } else {
        s
    }
}

/// What `gsettings get ... picture-uri` printed, as a URI: trimmed, its
/// single quotes stripped, trimmed again; `None` when nothing is left.
pub open spec fn gsettings_uri(output: Seq<char>) -> Option<Seq<char>> {
    let t = trim(strip_end(strip_start(trim(output), '\''), '\''));
    if t.len() == 0 {
        None
    } else {
        Some(t)
    }
}

/// Turns a local path into a `file://` URI for `gsettings`.
pub fn path_to_file_uri(path: &str) -> (r: String)
    ensures
        r@ == file_uri(path@),
{
    let n = path.unicode_len();
    let mut normalized = String::new();
    let mut i: usize = 0;
    while i < n
        invariant
            n == path@.len(),
            i <= n,
            normalized@ == spaces_escaped(path@.subrange(0, i as int)),
        decreases n - i,
    {
        let c = path.get_char(i);
        proof {
            assert(path@.subrange(0, i as int + 1).drop_last() =~= path@.subrange(0, i as int));
        }
        if c == ' ' {
            normalized.append("%20");
        } else {
            push_char(&mut normalized, c);
            assert(normalized@ =~= spaces_escaped(path@.subrange(0, i as int + 1)));
        }
        i = i + 1;
    }
    assert(path@.subrange(0, n as int) =~= path@);
    if starts_with(normalized.as_str(), "file://") {
        normalized
    } else {
        let mut uri = owned("file://");
        uri.append(normalized.as_str());
        uri
    }
}

/// The URI to hand `gsettings` when restoring the saved wallpaper.
pub fn wallpaper_restore_uri(saved: &str) -> (r: String)
    ensures
        r@ == restore_uri(saved@),
{
    if starts_with(saved, "file://") {
        owned(saved)
    } else {
        path_to_file_uri(saved)
    }
}

/// Removes leading and trailing occurrences of `c` (`str::trim_matches`).
pub fn strip_char(s: &str, c: char) -> (r: String)
    ensures
        r@ == strip_end(strip_start(s@, c), c),
{
    let n = s.unicode_len();
    let mut i: usize = 0;
    assert(s@.subrange(0, n as int) =~= s@);
    while i < n && s.get_char(i) == c
        invariant
            n == s@.len(),
            i <= n,
            strip_start(s@.subrange(i as int, n as int), c) == strip_start(s@, c),
        decreases n - i,
    {
        assert(s@.subrange(i as int, n as int).drop_first() =~= s@.subrange(i + 1, n as int));
        i = i + 1;
    }
    let ghost t = s@.subrange(i as int, n as int);
    let mut j: usize = n;
    assert(t.subrange(0, (j - i) as int) =~= t);
    while j > i && s.get_char(j - 1) == c
        invariant
            n == s@.len(),
            i <= j <= n,
            t == s@.subrange(i as int, n as int),
            strip_end(t.subrange(0, (j - i) as int), c) == strip_end(t, c),
        decreases j,
    {
        assert(t[(j - i) - 1] == s@[j - 1]);
        assert(t.subrange(0, (j - i) as int).drop_last() =~= t.subrange(0, (j - i) - 1));
        j = j - 1;
    }
    let sub = s.substring_char(i, j);
    assert(sub@ =~= t.subrange(0, (j - i) as int));
    owned(sub)
}

/// Reads the reply of `gsettings get org.gnome.desktop.background picture-uri`.
pub fn parse_gsettings_uri(output: &str) -> (r: Option<String>)
    ensures
        match gsettings_uri(output@) {
            Some(u) => r matches Some(s) && s@ == u,
            None => r is None,
        },
{
    let raw = trim_str(output);
    let unquoted = strip_char(raw.as_str(), '\'');
    let t = trim_str(unquoted.as_str());
    if t.unicode_len() == 0 {
        None
    } else {
        Some(t)
    }
}

/// Whether `pkill` did its job: it succeeded, or exited with 1, which means
/// that no process matched.
pub fn pkill_outcome_ok(success: bool, exit_code: Option<i32>) -> (r: bool)
    ensures
        r == (success || exit_code == Some(1i32)),
{
    success || match exit_code {
        Some(code) => code == 1,
        None => false,
    }
}

proof fn lemma_spaces_escaped_no_space(s: Seq<char>)
    ensures
        forall|k: int| 0 <= k < spaces_escaped(s).len() ==> #[trigger] spaces_escaped(s)[k] != ' ',
    decreases s.len(),
{
    reveal_strlit("%20");
    if s.len() > 0 {
        lemma_spaces_escaped_no_space(s.drop_last());
        let a = spaces_escaped(s.drop_last());
        assert forall|k: int| 0 <= k < spaces_escaped(s).len() implies #[trigger] spaces_escaped(
            s,
        )[k] != ' ' by {
            if k < a.len() {
                assert(spaces_escaped(s)[k] == a[k]);
            }
        }
    }
}

proof fn lemma_escape_without_spaces(s: Seq<char>)
    requires
        forall|k: int| 0 <= k < s.len() ==> s[k] != ' ',
    ensures
        spaces_escaped(s) == s,
    decreases s.len(),
{
    if s.len() > 0 {
        lemma_escape_without_spaces(s.drop_last());
        assert(s.drop_last().push(s.last()) =~= s);
    }
}

/// A file URI holds no spaces and starts with `file://`, and turning it into
/// a file URI again changes nothing.
pub proof fn law_file_uri_normal_form(path: Seq<char>)
    ensures
        has_prefix(file_uri(path), file_scheme()),
        forall|k: int| 0 <= k < file_uri(path).len() ==> #[trigger] file_uri(path)[k] != ' ',
        file_uri(file_uri(path)) == file_uri(path),
{
    reveal_strlit("file://");
    let e = spaces_escaped(path);
    lemma_spaces_escaped_no_space(path);
    if !has_prefix(e, file_scheme()) {
        let u = file_scheme() + e;
        assert(u.subrange(0, file_scheme().len() as int) =~= file_scheme());
        assert forall|k: int| 0 <= k < u.len() implies #[trigger] u[k] != ' ' by {
            if k >= file_scheme().len() {
                assert(u[k] == e[k - file_scheme().len()]);
            }
        }
    }
    lemma_escape_without_spaces(file_uri(path));
}

} // verus!
