//! The settings file: one `key=value` line per setting. Reading it applies
//! each line it recognises and leaves every other setting as it was.
use vstd::prelude::*;
use vstd::string::StrSliceExecFns;
use crate::config::Config;
use crate::text::{decimal, push_decimal, spec_parse_u32, parse_u32, str_equals, lemma_decimal_reads_back, lemma_parse_decimal, digit_value};
use crate::tray::MAX_CUSTOM_DELAY;

verus! {

/// The settings kept in the file, as plain values.
pub struct SettingsView {
    pub capture_cursor: bool,
    pub auto_copy: bool,
    pub hide_editor_on_capture: bool,
    pub capture_delay_secs: u32,
    pub language: Seq<char>,
    pub theme: Seq<char>,
}

/// The file-kept settings of `c` (all but the save folder).
pub open spec fn settings_of(c: Config) -> SettingsView {
    SettingsView {
        capture_cursor: c.capture_cursor,
        auto_copy: c.auto_copy,
        hide_editor_on_capture: c.hide_editor_on_capture,
        capture_delay_secs: c.capture_delay_secs,
        language: c.language@,
        theme: c.theme@,
    }
}

pub open spec fn flag_text(b: bool) -> Seq<char> {
    if b { "1"@ } else { "0"@ }
}

/// One line of the file: key, value, line feed.
pub open spec fn setting_line(key: Seq<char>, value: Seq<char>) -> Seq<char> {
    key + value + "\n"@
}

/// The file's text for a set of settings.
pub open spec fn spec_settings_text(s: SettingsView) -> Seq<char> {
    setting_line("capture_cursor="@, flag_text(s.capture_cursor)) + (
    setting_line("auto_copy="@, flag_text(s.auto_copy)) + (
    setting_line("hide_editor_on_capture="@, flag_text(s.hide_editor_on_capture)) + (
    setting_line("capture_delay_secs="@, decimal(s.capture_delay_secs as nat)) + (
    setting_line("language="@, s.language) + setting_line("theme="@, s.theme)))))
}

fn push_str(s: &mut String, t: &str)
    ensures
        final(s)@ == old(s)@ + t@,
{
    s.append(t);
}

fn line_string(key: &str, value: &str) -> (line: String)
    ensures
        line@ == setting_line(key@, value@),
{
    let mut s = String::new();
    push_str(&mut s, key);
    push_str(&mut s, value);
    push_str(&mut s, "\n");
    assert(s@ =~= setting_line(key@, value@));
    s
}

fn flag_str(b: bool) -> (t: &'static str)
    ensures
        t@ == flag_text(b),
{
    if b { "1" } else { "0" }
}

/// The settings file's text for `c`.
pub fn settings_text(c: &Config) -> (t: String)
    ensures
        t@ == spec_settings_text(settings_of(*c)),
{
    let l1 = line_string("capture_cursor=", flag_str(c.capture_cursor));
    let l2 = line_string("auto_copy=", flag_str(c.auto_copy));
    let l3 = line_string("hide_editor_on_capture=", flag_str(c.hide_editor_on_capture));
    let mut digits = String::new();
    push_decimal(&mut digits, c.capture_delay_secs);
    assert(digits@ =~= decimal(c.capture_delay_secs as nat));
    let l4 = line_string("capture_delay_secs=", digits.as_str());
    let l5 = line_string("language=", c.language.as_str());
    let l6 = line_string("theme=", c.theme.as_str());
    let mut s = l1;
    push_str(&mut s, l2.as_str());
    push_str(&mut s, l3.as_str());
    push_str(&mut s, l4.as_str());
    push_str(&mut s, l5.as_str());
    push_str(&mut s, l6.as_str());
    assert(s@ =~= l1@ + (l2@ + (l3@ + (l4@ + (l5@ + l6@)))));
    s
}

/// A line without the carriage return that ends it, if any.
pub open spec fn strip_cr(line: Seq<char>) -> Seq<char> {
    if line.len() > 0 && line.last() == '\r' { line.drop_last() } else { line }
}

/// The delay a `capture_delay_secs=` line gives: its number, at most 99
/// seconds; `None` when the line is not such a line.
pub open spec fn delay_of_line(line: Seq<char>) -> Option<u32> {
    let key = "capture_delay_secs="@;
    if line.len() >= key.len() && line.subrange(0, key.len() as int) == key {
        match spec_parse_u32(line.subrange(key.len() as int, line.len() as int)) {
            Some(v) => Some(if v > MAX_CUSTOM_DELAY { MAX_CUSTOM_DELAY } else { v }),
            None => None,
        }
    } else {
        None
    }
}

/// The settings after one line of the file. The flags take "1" or "0", the
/// delay a decimal number (capped at 99), the language "auto", "zh" or
/// "en", the theme "auto", "light" or "dark"; any other line changes nothing.
pub open spec fn apply_line(s: SettingsView, raw: Seq<char>) -> SettingsView {
    let line = strip_cr(raw);
    if line == "capture_cursor=1"@ {
        SettingsView { capture_cursor: true, ..s }
    } else if line == "capture_cursor=0"@ {
        SettingsView { capture_cursor: false, ..s }
    } else if line == "auto_copy=1"@ {
        SettingsView { auto_copy: true, ..s }
    } else if line == "auto_copy=0"@ {
        SettingsView { auto_copy: false, ..s }
    } else if line == "hide_editor_on_capture=1"@ {
        SettingsView { hide_editor_on_capture: true, ..s }
    } else if line == "hide_editor_on_capture=0"@ {
        SettingsView { hide_editor_on_capture: false, ..s }
    } else if line == "language=auto"@ {
        SettingsView { language: "auto"@, ..s }
    } else if line == "language=zh"@ {
        SettingsView { language: "zh"@, ..s }
    } else if line == "language=en"@ {
        SettingsView { language: "en"@, ..s }
    } else if line == "theme=auto"@ {
        SettingsView { theme: "auto"@, ..s }
    } else if line == "theme=light"@ {
        SettingsView { theme: "light"@, ..s }
    } else if line == "theme=dark"@ {
        SettingsView { theme: "dark"@, ..s }
    } else {
        match delay_of_line(line) {
            Some(d) => SettingsView { capture_delay_secs: d, ..s },
            None => s,
        }
    }
}

/// Index of the first line feed in `t`, or its length when there is none.
pub open spec fn first_newline(t: Seq<char>) -> int
    decreases t.len(),
{
    if t.len() == 0 {
        0
    } else if t[0] == '\n' {
        0
    } else {
        1 + first_newline(t.drop_first())
    }
}

proof fn lemma_first_newline_bounds(t: Seq<char>)
    ensures
        0 <= first_newline(t) <= t.len(),
        first_newline(t) < t.len() ==> t[first_newline(t)] == '\n',
    decreases t.len(),
{
    if t.len() > 0 && t[0] != '\n' {
        lemma_first_newline_bounds(t.drop_first());
    }
}

/// The settings after every line of `t`, first to last.
#[verifier::opaque]
pub open spec fn apply_settings(s: SettingsView, t: Seq<char>) -> SettingsView
    decreases t.len(),
{
    let i = first_newline(t);
    if 0 <= i < t.len() {
        apply_settings(apply_line(s, t.subrange(0, i)), t.subrange(i + 1, t.len() as int))
    } else {
        apply_line(s, t)
    }
}

/// With no line feed among its first `m` characters, the first line feed of
/// `t` is at `m` when there is one there, and past the end when `m` is the length.
proof fn lemma_first_newline_at(t: Seq<char>, m: int)
    requires
        0 <= m <= t.len(),
        forall|k: int| 0 <= k < m ==> t[k] != '\n',
        m < t.len() ==> t[m] == '\n',
    ensures
        first_newline(t) == m,
    decreases m,
{
    if m > 0 {
        assert forall|k: int| 0 <= k < m - 1 implies t.drop_first()[k] != '\n' by {
            assert(t.drop_first()[k] == t[k + 1]);
        }
        lemma_first_newline_at(t.drop_first(), m - 1);
    }
}

fn set_flag_line(line: &str, key_on: &str, key_off: &str, flag: &mut bool) -> (hit: bool)
    ensures
        hit == (line@ == key_on@ || line@ == key_off@),
        line@ == key_on@ ==> *final(flag) == true,
        line@ != key_on@ && line@ == key_off@ ==> *final(flag) == false,
        !hit ==> *final(flag) == *old(flag),
{
    if str_equals(line, key_on) {
        *flag = true;
        true
    } else if str_equals(line, key_off) {
        *flag = false;
        true
    } else {
        false
    }
}

/// Applies one line of the settings file to `c`.
fn apply_line_exec(c: &mut Config, raw: &str)
    ensures
        settings_of(*final(c)) == apply_line(settings_of(*old(c)), raw@),
        final(c).save_dir@ == old(c).save_dir@,
{
    let n = raw.unicode_len();
    let line = if n > 0 && raw.get_char(n - 1) == '\r' { raw.substring_char(0, n - 1) } else { raw.substring_char(0, n) };
    assert(line@ == strip_cr(raw@)) by {
        if n > 0 && raw@.last() == '\r' {
            assert(raw@.drop_last() =~= raw@.subrange(0, n - 1));
        } else {
            assert(raw@ =~= raw@.subrange(0, n as int));
        }
    }
    if set_flag_line(line, "capture_cursor=1", "capture_cursor=0", &mut c.capture_cursor) {
        return;
    }
    if set_flag_line(line, "auto_copy=1", "auto_copy=0", &mut c.auto_copy) {
        return;
    }
    if set_flag_line(line, "hide_editor_on_capture=1", "hide_editor_on_capture=0", &mut c.hide_editor_on_capture) {
        return;
    }
    if str_equals(line, "language=auto") {
        c.language = String::from_str("auto");
    } else if str_equals(line, "language=zh") {
        c.language = String::from_str("zh");
    } else if str_equals(line, "language=en") {
        c.language = String::from_str("en");
    } else if str_equals(line, "theme=auto") {
        c.theme = String::from_str("auto");
    } else if str_equals(line, "theme=light") {
        c.theme = String::from_str("light");
    } else if str_equals(line, "theme=dark") {
        c.theme = String::from_str("dark");
    } else {
        let key = "capture_delay_secs=";
        let k = key.unicode_len();
        let m = line.unicode_len();
        if m >= k && str_equals(line.substring_char(0, k), key) {
            match parse_u32(line.substring_char(k, m)) {
                Some(v) => {
                    c.capture_delay_secs = if v > MAX_CUSTOM_DELAY { MAX_CUSTOM_DELAY } else { v };
                },
                None => {},
            }
        }
    }
}

/// Reads the settings file's text into `c`: every line it recognises sets
/// its setting, later lines winning; the save folder is not kept there.
pub fn apply_settings_text(c: &mut Config, text: &str)
    ensures
        settings_of(*final(c)) == apply_settings(settings_of(*old(c)), text@),
        final(c).save_dir@ == old(c).save_dir@,
{
    proof {
        reveal(apply_settings);
    }
    let ghost t = text@;
    let ghost goal = apply_settings(settings_of(*old(c)), t);
    let n = text.unicode_len();
    assert(t.subrange(0, n as int) =~= t);
    let mut start: usize = 0;
    let mut i: usize = 0;
    while i < n
        invariant
            t == text@,
            n == t.len(),
            start <= i <= n,
            forall|k: int| start <= k < i ==> t[k] != '\n',
            apply_settings(settings_of(*c), t.subrange(start as int, n as int)) == goal,
            c.save_dir@ == old(c).save_dir@,
        decreases n - i,
    {
        if text.get_char(i) == '\n' {
            let ghost rest = t.subrange(start as int, n as int);
            proof {
                reveal(apply_settings);
                assert forall|k: int| 0 <= k < i - start implies rest[k] != '\n' by {
                    assert(rest[k] == t[start + k]);
                }
                lemma_first_newline_at(rest, i - start);
                assert(rest.subrange(0, i - start) =~= t.subrange(start as int, i as int));
                assert(rest.subrange(i - start + 1, rest.len() as int) =~= t.subrange(i + 1, n as int));
            }
            apply_line_exec(c, text.substring_char(start, i));
            start = i + 1;
        }
        i = i + 1;
    }
    let ghost rest = t.subrange(start as int, n as int);
    proof {
        reveal(apply_settings);
        assert forall|k: int| 0 <= k < rest.len() implies rest[k] != '\n' by {
            assert(rest[k] == t[start + k]);
        }
        lemma_first_newline_at(rest, rest.len() as int);
    }
    apply_line_exec(c, text.substring_char(start, n));
}

/// A line followed by a line feed is applied before the rest.
proof fn lemma_apply_first_line(s: SettingsView, line: Seq<char>, rest: Seq<char>)
    requires
        no_newline(line),
    ensures
        apply_settings(s, line + "\n"@ + rest) == apply_settings(apply_line(s, line), rest),
{
    reveal_strlit("\n");
    reveal(apply_settings);
    let t = line + "\n"@ + rest;
    assert forall|k: int| 0 <= k < line.len() implies t[k] != '\n' by {
        assert(t[k] == line[k]);
    }
    lemma_first_newline_at(t, line.len() as int);
    assert(t.subrange(0, line.len() as int) =~= line);
    assert(t.subrange(line.len() as int + 1, t.len() as int) =~= rest);
}

/// `key` followed by `value`, where neither holds a line feed.
proof fn lemma_no_newline(key: Seq<char>, value: Seq<char>)
    requires
        forall|k: int| 0 <= k < key.len() ==> key[k] != '\n',
        forall|k: int| 0 <= k < value.len() ==> value[k] != '\n',
    ensures
        forall|k: int| 0 <= k < (key + value).len() ==> (key + value)[k] != '\n',
{
    assert forall|k: int| 0 <= k < (key + value).len() implies (key + value)[k] != '\n' by {
        if k < key.len() {
            assert((key + value)[k] == key[k]);
        } else {
            assert((key + value)[k] == value[k - key.len()]);
        }
    }
}

pub open spec fn no_newline(line: Seq<char>) -> bool {
    forall|k: int| 0 <= k < line.len() ==> line[k] != '\n'
}

proof fn lemma_cursor_line(s: SettingsView, b: bool)
    ensures
        no_newline("capture_cursor="@ + flag_text(b)),
        apply_line(s, "capture_cursor="@ + flag_text(b)) == (SettingsView { capture_cursor: b, ..s }),
{
    reveal_strlit("capture_cursor=");
    reveal_strlit("1");
    reveal_strlit("0");
    reveal_strlit("capture_cursor=1");
    reveal_strlit("capture_cursor=0");
    let l = "capture_cursor="@ + flag_text(b);
    lemma_no_newline("capture_cursor="@, flag_text(b));
    if b {
        assert(l =~= "capture_cursor=1"@);
    } else {
        assert(l =~= "capture_cursor=0"@);
    }
}

proof fn lemma_copy_line(s: SettingsView, b: bool)
    ensures
        no_newline("auto_copy="@ + flag_text(b)),
        apply_line(s, "auto_copy="@ + flag_text(b)) == (SettingsView { auto_copy: b, ..s }),
{
    reveal_strlit("auto_copy=");
    reveal_strlit("1");
    reveal_strlit("0");
    reveal_strlit("capture_cursor=1");
    reveal_strlit("capture_cursor=0");
    reveal_strlit("auto_copy=1");
    reveal_strlit("auto_copy=0");
    let l = "auto_copy="@ + flag_text(b);
    lemma_no_newline("auto_copy="@, flag_text(b));
    assert(l.len() == 11);
    if b {
        assert(l =~= "auto_copy=1"@);
    } else {
        assert(l =~= "auto_copy=0"@);
    }
}

proof fn lemma_hide_line(s: SettingsView, b: bool)
    ensures
        no_newline("hide_editor_on_capture="@ + flag_text(b)),
        apply_line(s, "hide_editor_on_capture="@ + flag_text(b)) == (SettingsView { hide_editor_on_capture: b, ..s }),
{
    reveal_strlit("hide_editor_on_capture=");
    reveal_strlit("1");
    reveal_strlit("0");
    reveal_strlit("capture_cursor=1");
    reveal_strlit("capture_cursor=0");
    reveal_strlit("auto_copy=1");
    reveal_strlit("auto_copy=0");
    reveal_strlit("hide_editor_on_capture=1");
    reveal_strlit("hide_editor_on_capture=0");
    let l = "hide_editor_on_capture="@ + flag_text(b);
    lemma_no_newline("hide_editor_on_capture="@, flag_text(b));
    assert(l.len() == 24);
    if b {
        assert(l =~= "hide_editor_on_capture=1"@);
    } else {
        assert(l =~= "hide_editor_on_capture=0"@);
    }
}

/// The flag and language or theme lines are not `capture_delay_secs=` lines
/// and have lengths other than 20 and 21.
proof fn lemma_fixed_line_lengths()
    ensures
        "capture_cursor=1"@.len() == 16,
        "capture_cursor=0"@.len() == 16,
        "auto_copy=1"@.len() == 11,
        "auto_copy=0"@.len() == 11,
        "hide_editor_on_capture=1"@.len() == 24,
        "hide_editor_on_capture=0"@.len() == 24,
        "language=auto"@.len() == 13,
        "language=zh"@.len() == 11,
        "language=en"@.len() == 11,
        "theme=auto"@.len() == 10,
        "theme=light"@.len() == 11,
        "theme=dark"@.len() == 10,
{
    reveal_strlit("capture_cursor=1");
    reveal_strlit("capture_cursor=0");
    reveal_strlit("auto_copy=1");
    reveal_strlit("auto_copy=0");
    reveal_strlit("hide_editor_on_capture=1");
    reveal_strlit("hide_editor_on_capture=0");
    reveal_strlit("language=auto");
    reveal_strlit("language=zh");
    reveal_strlit("language=en");
    reveal_strlit("theme=auto");
    reveal_strlit("theme=light");
    reveal_strlit("theme=dark");
}

proof fn lemma_delay_line(s: SettingsView, d: u32)
    requires
        d <= MAX_CUSTOM_DELAY,
    ensures
        no_newline("capture_delay_secs="@ + decimal(d as nat)),
        apply_line(s, "capture_delay_secs="@ + decimal(d as nat)) == (SettingsView { capture_delay_secs: d, ..s }),
{
    reveal_strlit("capture_delay_secs=");
    let digits = decimal(d as nat);
    lemma_decimal_reads_back(d as nat);
    lemma_parse_decimal(d);
    lemma_fixed_line_lengths();
    let l = "capture_delay_secs="@ + digits;
    assert forall|k: int| 0 <= k < digits.len() implies digits[k] != '\n' by {
        assert(digit_value(digits[k]) is Some);
    }
    lemma_no_newline("capture_delay_secs="@, digits);
    assert(l.len() == 20 || l.len() == 21);
    assert(l.last() == digits.last());
    assert(digit_value(digits[digits.len() - 1]) is Some);
    assert(strip_cr(l) == l);
    assert(l.subrange(0, 19) =~= "capture_delay_secs="@);
    assert(l.subrange(19, l.len() as int) =~= digits);
    assert(delay_of_line(l) == Some(d));
}

proof fn lemma_language_line(s: SettingsView, lang: Seq<char>)
    requires
        lang == "auto"@ || lang == "zh"@ || lang == "en"@,
    ensures
        no_newline("language="@ + lang),
        apply_line(s, "language="@ + lang) == (SettingsView { language: lang, ..s }),
{
    reveal_strlit("language=");
    reveal_strlit("auto");
    reveal_strlit("zh");
    reveal_strlit("en");
    reveal_strlit("language=auto");
    reveal_strlit("language=zh");
    reveal_strlit("language=en");
    reveal_strlit("auto_copy=1");
    reveal_strlit("auto_copy=0");
    lemma_fixed_line_lengths();
    let l = "language="@ + lang;
    lemma_no_newline("language="@, lang);
    assert(l[0] == 'l');
    if lang == "auto"@ {
        assert(l =~= "language=auto"@);
    } else if lang == "zh"@ {
        assert(l =~= "language=zh"@);
    } else {
        assert(l =~= "language=en"@);
        assert(l[9] != "language=zh"@[9]);
    }
}

proof fn lemma_theme_line(s: SettingsView, theme: Seq<char>)
    requires
        theme == "auto"@ || theme == "light"@ || theme == "dark"@,
    ensures
        no_newline("theme="@ + theme),
        apply_line(s, "theme="@ + theme) == (SettingsView { theme: theme, ..s }),
{
    reveal_strlit("theme=");
    reveal_strlit("auto");
    reveal_strlit("light");
    reveal_strlit("dark");
    reveal_strlit("theme=auto");
    reveal_strlit("theme=light");
    reveal_strlit("theme=dark");
    reveal_strlit("auto_copy=1");
    reveal_strlit("auto_copy=0");
    reveal_strlit("language=zh");
    reveal_strlit("language=en");
    lemma_fixed_line_lengths();
    let l = "theme="@ + theme;
    lemma_no_newline("theme="@, theme);
    assert(l[0] == 't');
    if theme == "auto"@ {
        assert(l =~= "theme=auto"@);
    } else if theme == "light"@ {
        assert(l =~= "theme=light"@);
    } else {
        assert(l =~= "theme=dark"@);
    }
}

/// Reading back the text written for a set of settings gives those settings,
/// whatever was there before, for every value the menus can set: the
/// flags, a delay of at most 99 seconds, a language of "auto", "zh" or "en"
/// and a theme of "auto", "light" or "dark".
pub proof fn lemma_settings_round_trip(before: SettingsView, s: SettingsView)
    requires
        s.capture_delay_secs <= MAX_CUSTOM_DELAY,
        s.language == "auto"@ || s.language == "zh"@ || s.language == "en"@,
        s.theme == "auto"@ || s.theme == "light"@ || s.theme == "dark"@,
    ensures
        apply_settings(before, spec_settings_text(s)) == s,
{
    let l1 = "capture_cursor="@ + flag_text(s.capture_cursor);
    let l2 = "auto_copy="@ + flag_text(s.auto_copy);
    let l3 = "hide_editor_on_capture="@ + flag_text(s.hide_editor_on_capture);
    let l4 = "capture_delay_secs="@ + decimal(s.capture_delay_secs as nat);
    let l5 = "language="@ + s.language;
    let l6 = "theme="@ + s.theme;
    let nl = "\n"@;
    let empty = Seq::<char>::empty();
    let r6 = l6 + nl;
    let r5 = l5 + nl + r6;
    let r4 = l4 + nl + r5;
    let r3 = l3 + nl + r4;
    let r2 = l2 + nl + r3;
    let s1 = SettingsView { capture_cursor: s.capture_cursor, ..before };
    let s2 = SettingsView { auto_copy: s.auto_copy, ..s1 };
    let s3 = SettingsView { hide_editor_on_capture: s.hide_editor_on_capture, ..s2 };
    let s4 = SettingsView { capture_delay_secs: s.capture_delay_secs, ..s3 };
    let s5 = SettingsView { language: s.language, ..s4 };
    let s6 = SettingsView { theme: s.theme, ..s5 };
    lemma_cursor_line(before, s.capture_cursor);
    lemma_copy_line(s1, s.auto_copy);
    lemma_hide_line(s2, s.hide_editor_on_capture);
    lemma_delay_line(s3, s.capture_delay_secs);
    lemma_language_line(s4, s.language);
    lemma_theme_line(s5, s.theme);
    lemma_apply_first_line(before, l1, r2);
    lemma_apply_first_line(s1, l2, r3);
    lemma_apply_first_line(s2, l3, r4);
    lemma_apply_first_line(s3, l4, r5);
    lemma_apply_first_line(s4, l5, r6);
    assert(r6 =~= l6 + nl + empty);
    lemma_apply_first_line(s5, l6, empty);
    assert(apply_line(s6, empty) == s6) by {
        assert(strip_cr(empty) == empty);
        reveal_strlit("capture_delay_secs=");
        lemma_fixed_line_lengths();
    }
    assert(apply_settings(s6, empty) == apply_line(s6, empty)) by {
        reveal(apply_settings);
    }
    assert(s6 == s);
}

} // verus!
