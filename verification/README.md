# focus_client_rust

A desktop companion for the Focus Totem, a small networked device with a
focus switch. The client finds the totem over mDNS, polls its `/status`
endpoint, turns focus mode on and off (wallpaper, focus apps), logs each
completed session, and turns the session log into terminal analytics and an
HTML Focus Health Report.

## Layout

- `src/` is the library, verified with Verus. Every function carries a
  `requires`/`ensures` contract over mathematical models (`Seq<char>` for
  text, `Seq` of records for the session log), and the `law_*` proof
  functions state the properties that hold across calls.
  - `text`: whitespace trimming, equality, prefix and substring search,
    decimal rendering.
  - `totem`: the status payloads, reading a reply into a `TotemState`,
    poll error messages.
  - `client`: the polling state machine (focus on/off, three-strike
    connection loss, session start and end, launched apps).
  - `gui_model`: the state machine of the desktop status window.
  - `session`: local calendar arithmetic and `SessionRecord`.
  - `config`: per-OS app lists from `apps.toml`, sanitizing and defaults.
  - `automation`: wallpaper URIs for `gsettings` and `pkill` outcomes.
  - `discovery`: recognising the totem's mDNS service and its status URL.
  - `mock`: the development stand-in for the totem.
  - `analytics`: session quality, ranked focus hours and days, weekly
    totals, daily totals, the quality model's inputs and notes.
  - `summary`, `report`, `page`: the terminal summary and the HTML report.
  - `cli`: command-line dispatch.
- `app/` is the program around the library: the async polling loop, HTTP,
  mDNS, processes, files, the JSON session log, and the floating-point
  side of the analytics (rates, the linear trend and the decision tree).
- `tests/` runs the library on concrete values.

## Collections

- Daily totals are accumulated in a `BTreeMap<i64, u128>` keyed by the local
  day number (days since 1970-01-01) and listed in day order as
  `Vec<DayTotal>`, which is what the trend model reads. The day number and
  whole seconds stand for chrono's `NaiveDate` and minutes as `f32`, which
  the library does not hold.
- The per-OS app lists of `apps.toml` are held as `(os, apps)` pairs in
  `AppsConfig`, with the invariant that each OS name occurs once, as in a
  TOML table. A `HashMap<String, _>` has no usable specification in vstd,
  which gives no hashing model for `String` keys, so lookups in it could not
  be stated; the pairs state the same lookup exactly.
