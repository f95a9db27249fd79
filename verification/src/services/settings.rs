//! Settings: reading the stored key/value pairs over the defaults, and the
//! statements that change them.

use vstd::prelude::*;
use crate::models::settings::{default_settings, Settings, SettingsView};
use crate::sql::{decimal, digit_text, statement, text_value, views, SqlValueView, Statement};
use crate::text::{chars_of, str_equal};

verus! {

// ---------------------------------------------------------------- number and flag texts

/// `c` is an ASCII decimal digit.
pub open spec fn is_digit(c: char) -> bool {
    '0' as u32 <= c as u32 <= '9' as u32
}

/// Every character of `s` is a decimal digit.
pub open spec fn all_digits(s: Seq<char>) -> bool {
    forall|i: int| 0 <= i < s.len() ==> is_digit(#[trigger] s[i])
}

/// The number the decimal digits `s` write.
pub open spec fn digits_value(s: Seq<char>) -> nat
    decreases s.len(),
{
    if s.len() == 0 {
        0
    } else {
        digits_value(s.drop_last()) * 10 + (s.last() as u32 - '0' as u32) as nat
    }
}

/// The value of a non-empty run of digits no larger than `max`, if `d` is one.
pub open spec fn bounded_digits(d: Seq<char>, max: nat) -> Option<nat> {
    if d.len() > 0 && all_digits(d) && digits_value(d) <= max {
        Some(digits_value(d))
    } else {
        None
    }
}

/// What `str::parse::<u32>` gives: an optional `+` and decimal digits for a
/// value that fits.
pub open spec fn parse_u32_text(s: Seq<char>) -> Option<u32> {
    let d = if s.len() > 0 && s[0] == '+' { s.drop_first() } else { s };
    match bounded_digits(d, u32::MAX as nat) {
        Some(v) => Some(v as u32),
        None => None,
    }
}

/// What `str::parse::<i32>` gives: an optional sign and decimal digits for a
/// value that fits.
pub open spec fn parse_i32_text(s: Seq<char>) -> Option<i32> {
    if s.len() > 0 && s[0] == '-' {
        match bounded_digits(s.drop_first(), 0x8000_0000) {
            Some(v) => Some((-(v as int)) as i32),
            None => None,
        }
    } else {
        let d = if s.len() > 0 && s[0] == '+' { s.drop_first() } else { s };
        match bounded_digits(d, 0x7fff_ffff) {
            Some(v) => Some(v as i32),
            None => None,
        }
    }
}

/// What `str::parse::<bool>` gives: exactly `true` or `false`.
pub open spec fn parse_bool_text(s: Seq<char>) -> Option<bool> {
    if s == "true"@ {
        Some(true)
    } else if s == "false"@ {
        Some(false)
    } else {
        None
    }
}

/// A prefix of a run of digits is worth no more than the whole run.
proof fn lemma_digits_prefix(d: Seq<char>, k: int)
    requires
        0 <= k <= d.len(),
        all_digits(d),
    ensures
        digits_value(d.subrange(0, k)) <= digits_value(d),
    decreases d.len() - k,
{
    if k < d.len() {
        lemma_digits_prefix(d, k + 1);
        assert(d.subrange(0, k + 1).drop_last() =~= d.subrange(0, k));
    } else {
        assert(d.subrange(0, k) =~= d);
    }
}

/// The value of the digits `s[start..]` when they form a non-empty run of
/// digits no larger than `max`.
fn digits_from(s: &Vec<char>, start: usize, max: u64) -> (r: Option<u64>)
    requires
        start <= s@.len(),
        max < 0x1_0000_0000,
    ensures
        match bounded_digits(s@.skip(start as int), max as nat) {
            Some(v) => r == Some(v as u64),
            None => r is None,
        },
{
    let ghost d = s@.skip(start as int);
    if start == s.len() {
        return None;
    }
    let mut value: u64 = 0;
    let mut k: usize = start;
    while k < s.len()
        invariant
            start < s@.len(),
            d == s@.skip(start as int),
            start <= k <= s@.len(),
            max < 0x1_0000_0000,
            all_digits(d.subrange(0, k - start)),
            value == digits_value(d.subrange(0, k - start)),
            value <= max,
        decreases s.len() - k,
    {
        let c = s[k];
        let ghost pre = d.subrange(0, k - start);
        let ghost next = d.subrange(0, k - start + 1);
        assert(next.drop_last() =~= pre);
        assert(next.last() == c);
        let code = c as u32;
        assert(d[k - start] == c);
        if code < 48 || code > 57 {
            proof {
                assert(!is_digit(d[k - start]));
            }
            return None;
        }
        let digit = (code - 48) as u64;
        let v = value * 10 + digit;
        if v > max {
            proof {
                assert(all_digits(next));
                if all_digits(d) {
                    lemma_digits_prefix(d, k - start + 1);
                }
            }
            return None;
        }
        value = v;
        k = k + 1;
    }
    assert(d.subrange(0, k - start) =~= d);
    Some(value)
}

/// `s` parsed as a `u32`, as `str::parse` does.
pub fn parse_u32(s: &str) -> (r: Option<u32>)
    ensures
        r == parse_u32_text(s@),
{
    let c = chars_of(s);
    let start: usize = if c.len() > 0 && c[0] == '+' { 1 } else { 0 };
    assert(start == 1 ==> c@.skip(1) =~= s@.drop_first());
    assert(start == 0 ==> c@.skip(0) =~= s@);
    match digits_from(&c, start, 0xffff_ffff) {
        Some(v) => Some(v as u32),
        None => None,
    }
}

/// `s` parsed as an `i32`, as `str::parse` does.
pub fn parse_i32(s: &str) -> (r: Option<i32>)
    ensures
        r == parse_i32_text(s@),
{
    let c = chars_of(s);
    if c.len() > 0 && c[0] == '-' {
        assert(c@.skip(1) =~= s@.drop_first());
        match digits_from(&c, 1, 0x8000_0000) {
            Some(v) => Some((0 - (v as i64)) as i32),
            None => None,
        }
    } else {
        let start: usize = if c.len() > 0 && c[0] == '+' { 1 } else { 0 };
        assert(start == 1 ==> c@.skip(1) =~= s@.drop_first());
        assert(start == 0 ==> c@.skip(0) =~= s@);
        match digits_from(&c, start, 0x7fff_ffff) {
            Some(v) => Some(v as i32),
            None => None,
        }
    }
}

/// `s` parsed as a `bool`, as `str::parse` does.
pub fn parse_bool(s: &str) -> (r: Option<bool>)
    ensures
        r == parse_bool_text(s@),
{
    if str_equal(s, "true") {
        Some(true)
    } else if str_equal(s, "false") {
        Some(false)
    } else {
        None
    }
}

// ---------------------------------------------------------------- reading settings

/// The settings after the stored pair (`key`, `value`) is applied to `st`:
/// a known key sets its setting when the value parses (a text setting takes
/// the value as it is); an unknown key, or a value that does not parse,
/// changes nothing.
pub open spec fn apply_setting(st: SettingsView, key: Seq<char>, value: Seq<char>) -> SettingsView {
    if key == "theme"@ {
        SettingsView { theme: value, ..st }
    } else if key == "default_backup_count"@ {
        match parse_i32_text(value) {
            Some(v) => SettingsView { default_backup_count: v, ..st },
            None => st,
        }
    } else if key == "projects_directory"@ {
        SettingsView { projects_directory: Some(value), ..st }
    } else if key == "analysis_enabled"@ {
        match parse_bool_text(value) {
            Some(v) => SettingsView { analysis_enabled: v, ..st },
            None => st,
        }
    } else if key == "autosave_interval_seconds"@ {
        match parse_u32_text(value) {
            Some(v) => SettingsView { autosave_interval_seconds: v, ..st },
            None => st,
        }
    } else {
        st
    }
}

/// The settings that the stored pairs `rows` give, applied in order over the
/// defaults.
pub open spec fn settings_from(rows: Seq<(String, String)>) -> SettingsView
    decreases rows.len(),
{
    if rows.len() == 0 {
        default_settings()
    } else {
        apply_setting(settings_from(rows.drop_last()), rows.last().0@, rows.last().1@)
    }
}

/// The settings from the stored key/value pairs.
pub fn get_settings(rows: Vec<(String, String)>) -> (r: Settings)
    ensures
        r@ == settings_from(rows@),
{
    let ghost all = rows@;
    let n = rows.len();
    let mut rest = rows;
    let mut settings = Settings::default();
    let mut taken: usize = 0;
    assert(all.subrange(0, 0) =~= Seq::<(String, String)>::empty());
    assert(rest@ =~= all.subrange(0, n as int));
    while rest.len() > 0
        invariant
            n == all.len(),
            taken <= n,
            rest@ == all.subrange(taken as int, n as int),
            rest@.len() == n - taken,
            settings@ == settings_from(all.subrange(0, taken as int)),
        decreases rest.len(),
    {
        let (key, value) = rest.remove(0);
        proof {
            assert(all.subrange(0, taken + 1).drop_last() =~= all.subrange(0, taken as int));
            assert(all.subrange(0, taken + 1).last() == (key, value));
        }
        let k = key.as_str();
        if str_equal(k, "theme") {
            settings.theme = value;
        } else if str_equal(k, "default_backup_count") {
            if let Some(v) = parse_i32(value.as_str()) {
                settings.default_backup_count = v;
            }
        } else if str_equal(k, "projects_directory") {
            settings.projects_directory = Some(value);
        } else if str_equal(k, "analysis_enabled") {
            if let Some(v) = parse_bool(value.as_str()) {
                settings.analysis_enabled = v;
            }
        } else if str_equal(k, "autosave_interval_seconds") {
            if let Some(v) = parse_u32(value.as_str()) {
                settings.autosave_interval_seconds = v;
            }
        }
        taken = taken + 1;
        assert(rest@ =~= all.subrange(taken as int, n as int));
    }
    assert(all.subrange(0, n as int) =~= all);
    settings
}

/// The read of all stored settings.
pub fn read_settings() -> (r: Statement)
    ensures
        r.sql@ == "SELECT key, value FROM settings"@,
        r.params@.len() == 0,
{
    statement("SELECT key, value FROM settings", Vec::new())
}

/// The write of one setting, replacing any earlier value of the key.
pub fn update_setting(key: &str, value: &str) -> (r: Statement)
    ensures
        r.sql@ == "INSERT INTO settings (key, value, updated_at) VALUES (?1, ?2, datetime('now')) ON CONFLICT(key) DO UPDATE SET value = ?2, updated_at = datetime('now')"@,
        views(r.params@) == seq![SqlValueView::Text(key@), SqlValueView::Text(value@)],
{
    let params = vec![text_value(key), text_value(value)];
    assert(views(params@) =~= seq![SqlValueView::Text(key@), SqlValueView::Text(value@)]);
    statement(
        "INSERT INTO settings (key, value, updated_at) VALUES (?1, ?2, datetime('now')) ON CONFLICT(key) DO UPDATE SET value = ?2, updated_at = datetime('now')",
        params,
    )
}

/// The removal of every stored setting, which brings back the defaults.
pub fn reset_settings() -> (r: Statement)
    ensures
        r.sql@ == "DELETE FROM settings"@,
        r.params@.len() == 0,
{
    statement("DELETE FROM settings", Vec::new())
}

// ---------------------------------------------------------------- laws

/// The value stored under `key`: that of the last pair with that key.
pub open spec fn stored(rows: Seq<(String, String)>, key: Seq<char>) -> Option<Seq<char>>
    decreases rows.len(),
{
    if rows.len() == 0 {
        None
    } else if rows.last().0@ == key {
        Some(rows.last().1@)
    } else {
        stored(rows.drop_last(), key)
    }
}

/// No two stored pairs share a key, as in the settings table, whose key is
/// its primary key.
pub open spec fn distinct_keys(rows: Seq<(String, String)>) -> bool {
    forall|i: int, j: int| 0 <= i < j < rows.len() ==> (#[trigger] rows[i]).0@ != (#[trigger] rows[j]).0@
}

/// The setting read from the value stored under its key: the default when
/// nothing is stored or the stored value does not parse.
pub open spec fn parsed_or<T>(v: Option<Seq<char>>, parse: spec_fn(Seq<char>) -> Option<T>, default: T) -> T {
    match v {
        Some(text) => match parse(text) {
            Some(x) => x,
            None => default,
        },
        None => default,
    }
}

/// Each setting taken from the value stored under its own key.
pub open spec fn settings_of_stored(rows: Seq<(String, String)>) -> SettingsView {
    let d = default_settings();
    SettingsView {
        theme: match stored(rows, "theme"@) {
            Some(v) => v,
            None => d.theme,
        },
        default_backup_count: parsed_or(
            stored(rows, "default_backup_count"@),
            |t: Seq<char>| parse_i32_text(t),
            d.default_backup_count,
        ),
        projects_directory: match stored(rows, "projects_directory"@) {
            Some(v) => Some(v),
            None => d.projects_directory,
        },
        analysis_enabled: parsed_or(
            stored(rows, "analysis_enabled"@),
            |t: Seq<char>| parse_bool_text(t),
            d.analysis_enabled,
        ),
        autosave_interval_seconds: parsed_or(
            stored(rows, "autosave_interval_seconds"@),
            |t: Seq<char>| parse_u32_text(t),
            d.autosave_interval_seconds,
        ),
    }
}

/// A key with a stored value occurs among the stored pairs.
proof fn lemma_stored_is_present(rows: Seq<(String, String)>, key: Seq<char>)
    requires
        stored(rows, key) is Some,
    ensures
        exists|i: int| 0 <= i < rows.len() && (#[trigger] rows[i]).0@ == key,
    decreases rows.len(),
{
    if rows.last().0@ == key {
        assert(rows[rows.len() - 1].0@ == key);
    } else {
        lemma_stored_is_present(rows.drop_last(), key);
        let i = choose|i: int| 0 <= i < rows.drop_last().len() && (#[trigger] rows.drop_last()[i]).0@ == key;
        assert(rows[i] == rows.drop_last()[i]);
    }
}

/// With nothing stored, the settings are the defaults: what a reset leaves.
pub proof fn lemma_no_rows_defaults()
    ensures
        settings_from(Seq::<(String, String)>::empty()) == default_settings(),
{
}

/// With one stored pair per key, each setting is read from the value stored
/// under its own key, whatever the order of the pairs: a written value is
/// read back, and a value that does not parse leaves the default.
pub proof fn lemma_settings_read_back(rows: Seq<(String, String)>)
    requires
        distinct_keys(rows),
    ensures
        settings_from(rows) == settings_of_stored(rows),
    decreases rows.len(),
{
    reveal_strlit("theme");
    reveal_strlit("default_backup_count");
    reveal_strlit("projects_directory");
    reveal_strlit("analysis_enabled");
    reveal_strlit("autosave_interval_seconds");
    if rows.len() > 0 {
        let rest = rows.drop_last();
        assert forall|i: int, j: int| 0 <= i < j < rest.len() implies (#[trigger] rest[i]).0@ != (
        #[trigger] rest[j]).0@ by {
            assert(rest[i] == rows[i] && rest[j] == rows[j]);
        }
        lemma_settings_read_back(rest);
        let k = rows.last().0@;
        if stored(rest, k) is Some {
            lemma_stored_is_present(rest, k);
            let i = choose|i: int| 0 <= i < rest.len() && (#[trigger] rest[i]).0@ == k;
            assert(rows[i] == rest[i]);
            assert(rows[i].0@ != rows[rows.len() - 1].0@);
        }
        assert(rows.last() == rows[rows.len() - 1]);
        let a = settings_from(rows);
        let b = settings_of_stored(rows);
        let keys = seq![
            "theme"@,
            "default_backup_count"@,
            "projects_directory"@,
            "analysis_enabled"@,
            "autosave_interval_seconds"@,
        ];
        assert(forall|x: int, y: int| 0 <= x < y < 5 ==> keys[x] != keys[y]) by {
            assert(keys[0].len() != keys[1].len() && keys[0].len() != keys[2].len());
            assert(keys[0].len() != keys[3].len() && keys[0].len() != keys[4].len());
            assert(keys[1].len() != keys[3].len() && keys[1].len() != keys[4].len());
            assert(keys[2].len() != keys[3].len() && keys[2].len() != keys[4].len());
            assert(keys[3].len() != keys[4].len());
            assert(keys[1][0] != keys[2][0]);
        }
        assert forall|x: int| 0 <= x < 5 && k != keys[x] implies stored(rows, keys[x]) == stored(rest, keys[x]) by {}
        assert forall|x: int| 0 <= x < 5 && k == keys[x] implies stored(rest, keys[x]) is None && stored(rows, keys[x]) == Some(rows.last().1@) by {}
        assert(a.theme == b.theme);
        assert(a.default_backup_count == b.default_backup_count) by {
            assert(keys[1] == "default_backup_count"@);
        }
        assert(a.projects_directory == b.projects_directory) by {
            assert(keys[2] == "projects_directory"@);
        }
        assert(a.analysis_enabled == b.analysis_enabled);
        assert(a.autosave_interval_seconds == b.autosave_interval_seconds);
    }
}

/// The text of a decimal digit is one character, that digit.
proof fn lemma_digit_text(d: int)
    requires
        0 <= d < 10,
    ensures
        digit_text(d).len() == 1,
        digit_text(d)[0] as u32 == '0' as u32 + d,
{
    reveal_strlit("0");
    reveal_strlit("1");
    reveal_strlit("2");
    reveal_strlit("3");
    reveal_strlit("4");
    reveal_strlit("5");
    reveal_strlit("6");
    reveal_strlit("7");
    reveal_strlit("8");
    reveal_strlit("9");
}

/// The decimal notation of `n` is a non-empty run of digits worth `n`.
proof fn lemma_decimal_digits(n: nat)
    ensures
        decimal(n).len() > 0,
        all_digits(decimal(n)),
        digits_value(decimal(n)) == n,
    decreases n,
{
    if n < 10 {
        lemma_digit_text(n as int);
        let s = decimal(n);
        assert(s.drop_last() =~= Seq::<char>::empty());
        assert(s.last() as u32 == '0' as u32 + n);
        assert(digits_value(s) == digits_value(s.drop_last()) * 10 + (s.last() as u32 - '0' as u32) as nat);
        assert(digits_value(s.drop_last()) == 0);
    } else {
        lemma_decimal_digits(n / 10);
        lemma_digit_text((n % 10) as int);
        let s = decimal(n);
        assert(s.drop_last() =~= decimal(n / 10));
        assert(s.last() == digit_text((n % 10) as int)[0]);
        assert(digits_value(s) == digits_value(s.drop_last()) * 10 + (s.last() as u32 - '0' as u32) as nat);
        assert(n == (n / 10) * 10 + n % 10);
        assert forall|i: int| 0 <= i < s.len() implies is_digit(#[trigger] s[i]) by {
            if i < decimal(n / 10).len() {
                assert(s[i] == decimal(n / 10)[i]);
            }
        }
    }
}

/// A count written in decimal reads back as the same count.
pub proof fn lemma_u32_text_reads_back(n: u32)
    ensures
        parse_u32_text(decimal(n as nat)) == Some(n),
{
    lemma_decimal_digits(n as nat);
}

/// A number as `Display` writes an `i32`: a minus sign before the digits of
/// a negative number.
pub open spec fn signed_decimal(n: i32) -> Seq<char> {
    if n < 0 {
        "-"@ + decimal((-n) as nat)
    } else {
        decimal(n as nat)
    }
}

/// A whole number written in decimal reads back as the same number.
pub proof fn lemma_i32_text_reads_back(n: i32)
    ensures
        parse_i32_text(signed_decimal(n)) == Some(n),
{
    reveal_strlit("-");
    if n < 0 {
        lemma_decimal_digits((-n) as nat);
        assert(signed_decimal(n).drop_first() =~= decimal((-n) as nat));
    } else {
        lemma_decimal_digits(n as nat);
    }
}

} // verus!
