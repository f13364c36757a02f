//! The handful of preferences that have to outlive the process, and the `key=value` text
//! they are kept in. Reading and writing the file is the program's business; this module
//! says what a file means and what a file for given settings says.

use vstd::prelude::*;

use crate::chars::str_chars;
use crate::text::{lang_name, parse_lang_name, settings_file_header, settings_file_header_text, Lang};

verus! {

/// What the tray menu can turn on and off, and the interface language. Both switches
/// default to on; the language defaults to following Windows.
#[derive(PartialEq, Eq, Clone, Copy, Debug, Structural)]
pub struct Settings {
    /// Announce the headset being switched on or off.
    pub notify_power: bool,
    /// Announce the battery falling past a threshold.
    pub notify_battery: bool,
    /// Which language the interface speaks, or `None` to follow Windows.
    pub language: Option<Lang>,
}

pub open spec fn default_settings() -> Settings {
    Settings { notify_power: true, notify_battery: true, language: None }
}

impl Default for Settings {
    fn default() -> (s: Self)
        ensures
            s == default_settings(),
    {
        Settings { notify_power: true, notify_battery: true, language: None }
    }
}

/// Whitespace as `str::trim` understands it: the Unicode White_Space characters.
pub open spec fn is_ws(c: char) -> bool {
    let u = c as u32;
    ||| 0x09 <= u <= 0x0D
    ||| u == 0x20
    ||| u == 0x85
    ||| u == 0xA0
    ||| u == 0x1680
    ||| 0x2000 <= u <= 0x200A
    ||| u == 0x2028
    ||| u == 0x2029
    ||| u == 0x202F
    ||| u == 0x205F
    ||| u == 0x3000
}

/// The first position at or after `i` that is not whitespace.
pub open spec fn skip_ws(s: Seq<char>, i: int) -> int
    decreases s.len() - i,
{
    if 0 <= i < s.len() && is_ws(s[i]) {
        skip_ws(s, i + 1)
    } else {
        i
    }
}

/// The end of `s[lo..j]` once trailing whitespace is dropped.
pub open spec fn back_ws(s: Seq<char>, lo: int, j: int) -> int
    decreases j - lo,
{
    if lo < j && j <= s.len() && is_ws(s[j - 1]) {
        back_ws(s, lo, j - 1)
    } else {
        j
    }
}

/// `s` without leading and trailing whitespace.
pub open spec fn trim(s: Seq<char>) -> Seq<char> {
    let a = skip_ws(s, 0);
    s.subrange(a, back_ws(s, a, s.len() as int))
}

/// The first position at or after `i` holding `c`.
pub open spec fn find_from(s: Seq<char>, c: char, i: int) -> Option<int>
    decreases s.len() - i,
{
    if i < 0 || i >= s.len() {
        None
    } else if s[i] == c {
        Some(i)
    } else {
        find_from(s, c, i + 1)
    }
}

/// What one line of the file does to the settings read so far. Blank lines and comments do
/// nothing; so does anything not understood, because not understanding the file is not a
/// decision to change anything.
pub open spec fn apply_line(st: Settings, raw: Seq<char>) -> Settings {
    let line = trim(raw);
    if line.len() == 0 || line[0] == '#' {
        st
    } else {
        match find_from(line, '=', 0) {
            None => st,
            Some(e) => {
                let key = trim(line.take(e));
                let value = trim(line.skip(e + 1));
                if key == "language"@ {
                    Settings {
                        language: if value == "auto"@ {
                            None
                        } else {
                            match parse_lang_name(value) {
                                Some(l) => Some(l),
                                None => st.language,
                            }
                        },
                        ..st
                    }
                } else if value == "on"@ || value == "off"@ {
                    let on = value == "on"@;
                    if key == "notify_power"@ {
                        Settings { notify_power: on, ..st }
                    } else if key == "notify_battery"@ {
                        Settings { notify_battery: on, ..st }
                    } else {
                        st
                    }
                } else {
                    st
                }
            },
        }
    }
}

/// Reading the rest of a file, with `st` read so far and `cur` the part of the current line
/// already seen. Lines end at a line feed; a carriage return before it is whitespace and
/// trimmed like any other.
pub open spec fn parse_from(st: Settings, cur: Seq<char>, t: Seq<char>) -> Settings
    decreases t.len(),
{
    if t.len() == 0 {
        apply_line(st, cur)
    } else if t[0] == '\n' {
        parse_from(apply_line(st, cur), Seq::empty(), t.drop_first())
    } else {
        parse_from(st, cur.push(t[0]), t.drop_first())
    }
}

/// What a settings file says: the defaults, with each line applied in order.
pub open spec fn parse_text(t: Seq<char>) -> Settings {
    parse_from(default_settings(), Seq::empty(), t)
}

pub open spec fn on_off(b: bool) -> Seq<char> {
    if b { "on"@ } else { "off"@ }
}

pub open spec fn language_value(l: Option<Lang>) -> Seq<char> {
    match l {
        None => "auto"@,
        Some(l) => lang_name(l),
    }
}

/// The file written for `s`: the header line explaining it, then one line per key.
pub open spec fn settings_text(s: Settings, lang: Lang) -> Seq<char> {
    settings_file_header_text(lang) + "\n"@
        + "notify_power="@ + on_off(s.notify_power) + "\n"@
        + "notify_battery="@ + on_off(s.notify_battery) + "\n"@
        + "language="@ + language_value(s.language) + "\n"@
}

fn chars_eq(a: &Vec<char>, b: &str) -> (r: bool)
    ensures
        r == (a@ == b@),
{
    let bc = str_chars(b);
    if a.len() != bc.len() {
        return false;
    }
    let mut i: usize = 0;
    while i < a.len()
        invariant
            bc@ == b@,
            a@.len() == bc@.len(),
            i <= a@.len(),
            forall|j: int| 0 <= j < i ==> a@[j] == bc@[j],
        decreases a@.len() - i,
    {
        if a[i] != bc[i] {
            return false;
        }
        i = i + 1;
    }
    assert(a@ =~= bc@);
    true
}

fn char_is_ws(c: char) -> (r: bool)
    ensures
        r == is_ws(c),
{
    let u = c as u32;
    (0x09 <= u && u <= 0x0D) || u == 0x20 || u == 0x85 || u == 0xA0 || u == 0x1680 || (0x2000 <= u && u
        <= 0x200A) || u == 0x2028 || u == 0x2029 || u == 0x202F || u == 0x205F || u == 0x3000
}

fn copy_range(v: &Vec<char>, a: usize, b: usize) -> (r: Vec<char>)
    requires
        a <= b <= v@.len(),
    ensures
        r@ == v@.subrange(a as int, b as int),
{
    let mut r: Vec<char> = Vec::new();
    let mut i: usize = a;
    while i < b
        invariant
            a <= i <= b <= v@.len(),
            r@ == v@.subrange(a as int, i as int),
        decreases b - i,
    {
        r.push(v[i]);
        assert(v@.subrange(a as int, i + 1) =~= v@.subrange(a as int, i as int).push(v@[i as int]));
        i = i + 1;
    }
    r
}

fn trim_chars(v: &Vec<char>) -> (r: Vec<char>)
    ensures
        r@ == trim(v@),
{
    let mut a: usize = 0;
    while a < v.len() && char_is_ws(v[a])
        invariant
            a <= v@.len(),
            skip_ws(v@, 0) == skip_ws(v@, a as int),
        decreases v@.len() - a,
    {
        a = a + 1;
    }
    let mut b: usize = v.len();
    while b > a && char_is_ws(v[b - 1])
        invariant
            a <= b <= v@.len(),
            skip_ws(v@, 0) == a,
            back_ws(v@, a as int, v@.len() as int) == back_ws(v@, a as int, b as int),
        decreases b - a,
    {
        b = b - 1;
    }
    copy_range(v, a, b)
}

fn find_char(v: &Vec<char>, c: char) -> (r: Option<usize>)
    ensures
        match r {
            Some(i) => find_from(v@, c, 0) == Some(i as int),
            None => find_from(v@, c, 0) is None,
        },
{
    let mut i: usize = 0;
    while i < v.len()
        invariant
            i <= v@.len(),
            find_from(v@, c, 0) == find_from(v@, c, i as int),
        decreases v@.len() - i,
    {
        if v[i] == c {
            return Some(i);
        }
        i = i + 1;
    }
    None
}

fn lang_from_chars(v: &Vec<char>) -> (r: Option<Lang>)
    ensures
        r == parse_lang_name(v@),
{
    if chars_eq(v, "ja") {
        Some(Lang::Ja)
    } else if chars_eq(v, "en") {
        Some(Lang::En)
    } else {
        None
    }
}

impl Settings {
    fn apply(&mut self, raw: &Vec<char>)
        ensures
            *final(self) == apply_line(*old(self), raw@),
    {
        let line = trim_chars(raw);
        if line.len() == 0 || line[0] == '#' {
            return;
        }
        let e = match find_char(&line, '=') {
            Some(e) => e,
            None => return,
        };
        proof {
            lemma_find_in_range(line@, '=', 0);
        }
        let key = trim_chars(&copy_range(&line, 0, e));
        let value = trim_chars(&copy_range(&line, e + 1, line.len()));
        assert(line@.take(e as int) =~= line@.subrange(0, e as int));
        assert(line@.skip(e + 1) =~= line@.subrange(e + 1, line@.len() as int));
        if chars_eq(&key, "language") {
            if chars_eq(&value, "auto") {
                self.language = None;
            } else {
                match lang_from_chars(&value) {
                    Some(l) => self.language = Some(l),
                    None => {},
                }
            }
            return;
        }
        let on = if chars_eq(&value, "on") {
            true
        } else if chars_eq(&value, "off") {
            false
        } else {
            return;
        };
        if chars_eq(&key, "notify_power") {
            self.notify_power = on;
        } else if chars_eq(&key, "notify_battery") {
            self.notify_battery = on;
        }
    }

    /// What a settings file says. Anything the file does not say keeps its default, and
    /// anything it says that is not understood is skipped: a half-written file must not turn
    /// a preference into its opposite.
    pub fn parse(text: &str) -> (s: Settings)
        ensures
            s == parse_text(text@),
    {
        let t = str_chars(text);
        let mut st = Settings::default();
        let mut line: Vec<char> = Vec::new();
        let mut i: usize = 0;
        assert(t@.skip(0) =~= t@);
        assert(line@ =~= Seq::<char>::empty());
        while i < t.len()
            invariant
                t@ == text@,
                i <= t@.len(),
                parse_text(text@) == parse_from(st, line@, t@.skip(i as int)),
            decreases t@.len() - i,
        {
            assert(t@.skip(i as int).drop_first() =~= t@.skip(i + 1));
            if t[i] == '\n' {
                st.apply(&line);
                line = Vec::new();
                assert(line@ =~= Seq::<char>::empty());
            } else {
                line.push(t[i]);
            }
            i = i + 1;
        }
        st.apply(&line);
        assert(t@.skip(i as int) =~= Seq::<char>::empty());
        st
    }

    /// The settings a file holds, or the defaults when there is no file to read.
    pub fn load(contents: Option<&str>) -> (s: Settings)
        ensures
            s == match contents {
                Some(t) => parse_text(t@),
                None => default_settings(),
            },
    {
        match contents {
            Some(t) => Settings::parse(t),
            None => Settings::default(),
        }
    }

    /// The text of the settings file for these settings, with the header in `lang`.
    pub fn as_text(&self, lang: Lang) -> (t: String)
        ensures
            t@ == settings_text(*self, lang),
    {
        let mut t = String::from_str(settings_file_header(lang));
        t.append("\n");
        t.append("notify_power=");
        t.append(if self.notify_power { "on" } else { "off" });
        t.append("\n");
        t.append("notify_battery=");
        t.append(if self.notify_battery { "on" } else { "off" });
        t.append("\n");
        t.append("language=");
        t.append(
            match self.language {
                None => "auto",
                Some(l) => l.as_str(),
            },
        );
        t.append("\n");
        t
    }
}

proof fn lemma_find_in_range(s: Seq<char>, c: char, i: int)
    requires
        0 <= i,
    ensures
        match find_from(s, c, i) {
            Some(k) => i <= k < s.len() && s[k] == c,
            None => true,
        },
    decreases s.len() - i,
{
    if i < s.len() && s[i] != c {
        lemma_find_in_range(s, c, i + 1);
    }
}

pub open spec fn no_newline(s: Seq<char>) -> bool {
    forall|i: int| 0 <= i < s.len() ==> #[trigger] s[i] != '\n'
}

proof fn lemma_no_newline_concat(a: Seq<char>, b: Seq<char>)
    requires
        no_newline(a),
        no_newline(b),
    ensures
        no_newline(a + b),
{
    assert forall|i: int| 0 <= i < (a + b).len() implies #[trigger] (a + b)[i] != '\n' by {
        if i < a.len() {
            assert((a + b)[i] == a[i]);
        } else {
            assert((a + b)[i] == b[i - a.len()]);
        }
    }
}

proof fn lemma_parse_chunk(st: Settings, cur: Seq<char>, a: Seq<char>, b: Seq<char>)
    requires
        no_newline(a),
    ensures
        parse_from(st, cur, a + b) == parse_from(st, cur + a, b),
    decreases a.len(),
{
    if a.len() == 0 {
        assert(a + b =~= b);
        assert(cur + a =~= cur);
    } else {
        assert((a + b)[0] == a[0]);
        assert((a + b).drop_first() =~= a.drop_first() + b);
        assert(no_newline(a.drop_first())) by {
            assert forall|i: int| 0 <= i < a.drop_first().len() implies #[trigger] a.drop_first()[i] != '\n' by {
                assert(a.drop_first()[i] == a[i + 1]);
            }
        }
        lemma_parse_chunk(st, cur.push(a[0]), a.drop_first(), b);
        assert(cur.push(a[0]) + a.drop_first() =~= cur + a);
    }
}

/// A whole line followed by a line feed is applied, and reading goes on after it.
proof fn lemma_parse_line(st: Settings, a: Seq<char>, b: Seq<char>)
    requires
        no_newline(a),
    ensures
        parse_from(st, Seq::empty(), a + "\n"@ + b) == parse_from(apply_line(st, a), Seq::empty(), b),
{
    reveal_strlit("\n");
    assert(a + "\n"@ + b =~= a + ("\n"@ + b));
    lemma_parse_chunk(st, Seq::empty(), a, "\n"@ + b);
    assert(Seq::<char>::empty() + a =~= a);
    assert(("\n"@ + b).drop_first() =~= b);
}

proof fn lemma_trim_noop(s: Seq<char>)
    requires
        s.len() > 0,
        !is_ws(s[0]),
        !is_ws(s[s.len() - 1]),
    ensures
        trim(s) == s,
{
    assert(skip_ws(s, 0) == 0);
    assert(back_ws(s, 0, s.len() as int) == s.len());
    assert(s.subrange(0, s.len() as int) =~= s);
}

/// A `key=value` line whose key has no `=` and whose key and value carry no whitespace at
/// their edges reads as exactly that key and that value.
proof fn lemma_apply_assignment(st: Settings, k: Seq<char>, v: Seq<char>)
    requires
        k.len() > 0,
        v.len() > 0,
        forall|i: int| 0 <= i < k.len() ==> #[trigger] k[i] != '=',
        k[0] != '#',
        !is_ws(k[0]),
        !is_ws(k[k.len() - 1]),
        !is_ws(v[0]),
        !is_ws(v[v.len() - 1]),
    ensures
        ({
            let line = k + "="@ + v;
            &&& trim(line) == line
            &&& find_from(line, '=', 0) == Some(k.len() as int)
            &&& trim(line.take(k.len() as int)) == k
            &&& trim(line.skip(k.len() as int + 1)) == v
        }),
{
    reveal_strlit("=");
    let line = k + "="@ + v;
    assert(line[0] == k[0]);
    assert(line[line.len() - 1] == v[v.len() - 1]);
    lemma_trim_noop(line);
    assert forall|i: int| 0 <= i < k.len() implies line[i] == #[trigger] k[i] by {
        assert(line[i] == k[i]);
    }
    lemma_find_skip(line, k, k.len() as int);
    assert(line[k.len() as int] == '=');
    assert(find_from(line, '=', k.len() as int) == Some(k.len() as int));
    assert(line.take(k.len() as int) =~= k);
    assert(line.skip(k.len() as int + 1) =~= v);
    lemma_trim_noop(k);
    lemma_trim_noop(v);
}

proof fn lemma_find_skip(line: Seq<char>, k: Seq<char>, j: int)
    requires
        0 <= j <= k.len(),
        k.len() < line.len(),
        forall|i: int| 0 <= i < k.len() ==> line[i] == #[trigger] k[i],
        forall|i: int| 0 <= i < k.len() ==> #[trigger] k[i] != '=',
    ensures
        find_from(line, '=', 0) == find_from(line, '=', j),
    decreases j,
{
    if j > 0 {
        lemma_find_skip(line, k, j - 1);
        assert(line[j - 1] == k[j - 1]);
    }
}

/// What is written is what is read back: for any settings, and a header in either language,
/// the file written for them parses to exactly those settings.
pub proof fn lemma_settings_round_trip(s: Settings, lang: Lang)
    ensures
        parse_text(settings_text(s, lang)) == s,
{
    reveal_strlit("\n");
    reveal_strlit("=");
    reveal_strlit("notify_power=");
    reveal_strlit("notify_power");
    reveal_strlit("notify_battery=");
    reveal_strlit("notify_battery");
    reveal_strlit("language=");
    reveal_strlit("language");
    reveal_strlit("on");
    reveal_strlit("off");
    reveal_strlit("auto");
    reveal_strlit("ja");
    reveal_strlit("en");
    reveal_strlit("# inzone-h9-gen1-headset-status の設定です。消すと既定に戻ります。language は auto か ja か en です。");
    reveal_strlit("# inzone-h9-gen1-headset-status settings. Delete the file to reset. language is auto, ja or en.");

    let h = settings_file_header_text(lang);
    let np = on_off(s.notify_power);
    let nb = on_off(s.notify_battery);
    let lv = language_value(s.language);
    let l2 = "notify_power"@ + "="@ + np;
    let l3 = "notify_battery"@ + "="@ + nb;
    let l4 = "language"@ + "="@ + lv;
    assert("notify_power="@ =~= "notify_power"@ + "="@);
    assert("notify_battery="@ =~= "notify_battery"@ + "="@);
    assert("language="@ =~= "language"@ + "="@);
    let nl = "\n"@;
    let e: Seq<char> = Seq::empty();
    let r3 = l4 + nl + e;
    let r2 = l3 + nl + r3;
    let r1 = l2 + nl + r2;
    assert(settings_text(s, lang) =~= h + nl + r1);

    assert(no_newline(h));
    assert(no_newline(l2)) by {
        assert(no_newline("notify_power"@ + "="@));
        lemma_no_newline_concat("notify_power"@ + "="@, np);
    }
    assert(no_newline(l3)) by {
        assert(no_newline("notify_battery"@ + "="@));
        lemma_no_newline_concat("notify_battery"@ + "="@, nb);
    }
    assert(no_newline(l4)) by {
        assert(no_newline("language"@ + "="@));
        lemma_no_newline_concat("language"@ + "="@, lv);
    }

    let d = default_settings();
    lemma_parse_line(d, h, r1);
    lemma_trim_noop(h);
    assert(apply_line(d, h) == d);

    lemma_parse_line(d, l2, r2);
    lemma_apply_assignment(d, "notify_power"@, np);
    let s2 = Settings { notify_power: s.notify_power, ..d };
    assert(apply_line(d, l2) == s2);

    lemma_parse_line(s2, l3, r3);
    lemma_apply_assignment(s2, "notify_battery"@, nb);
    let s3 = Settings { notify_battery: s.notify_battery, ..s2 };
    assert(apply_line(s2, l3) == s3);

    lemma_parse_line(s3, l4, e);
    lemma_apply_assignment(s3, "language"@, lv);
    assert(apply_line(s3, l4) == s);
    assert(trim(e) =~= e);
}

/// Whether a trimmed line says something this file format understands: a known key with a
/// value that key accepts.
pub open spec fn understood(line: Seq<char>) -> bool {
    line.len() > 0 && line[0] != '#' && match find_from(line, '=', 0) {
        None => false,
        Some(e) => {
            let key = trim(line.take(e));
            let value = trim(line.skip(e + 1));
            ||| key == "language"@ && (value == "auto"@ || parse_lang_name(value) is Some)
            ||| (key == "notify_power"@ || key == "notify_battery"@) && (value == "on"@ || value == "off"@)
        },
    }
}

/// A line that is not understood (a comment, garbage without an `=`, a key from the future,
/// a value nobody wrote on purpose, a line cut short) changes no preference at all.
pub proof fn lemma_not_understood_changes_nothing(st: Settings, raw: Seq<char>)
    requires
        !understood(trim(raw)),
    ensures
        apply_line(st, raw) == st,
{
    reveal_strlit("language");
    reveal_strlit("notify_power");
    reveal_strlit("notify_battery");
    reveal_strlit("auto");
    reveal_strlit("on");
    reveal_strlit("off");
}

/// The lines of a file, split at line feeds; the last one runs to the end. A carriage
/// return before a line feed stays on its line and is trimmed like any whitespace, and a
/// blank line is never usable, so this reads every usable line `str::lines` would.
pub open spec fn lines_from(cur: Seq<char>, t: Seq<char>) -> Seq<Seq<char>>
    decreases t.len(),
{
    if t.len() == 0 {
        seq![cur]
    } else if t[0] == '\n' {
        seq![cur] + lines_from(Seq::empty(), t.drop_first())
    } else {
        lines_from(cur.push(t[0]), t.drop_first())
    }
}

pub open spec fn lines_of(t: Seq<char>) -> Seq<Seq<char>> {
    lines_from(Seq::empty(), t)
}

/// Applying lines first to last.
pub open spec fn apply_lines(st: Settings, ls: Seq<Seq<char>>) -> Settings
    decreases ls.len(),
{
    if ls.len() == 0 {
        st
    } else {
        apply_lines(apply_line(st, ls[0]), ls.drop_first())
    }
}

/// The key and value of a usable line: one whose trim is not blank, not a comment, and holds
/// an `=`, split at the first one and each side trimmed.
pub open spec fn assignment(line: Seq<char>) -> Option<(Seq<char>, Seq<char>)> {
    let l = trim(line);
    if l.len() == 0 || l[0] == '#' {
        None
    } else {
        match find_from(l, '=', 0) {
            None => None,
            Some(e) => Some((trim(l.take(e)), trim(l.skip(e + 1)))),
        }
    }
}

/// What a line sets a switch to, if it sets it.
pub open spec fn switch_of(line: Seq<char>, key: Seq<char>) -> Option<bool> {
    match assignment(line) {
        Some((k, v)) => if k == key && (v == "on"@ || v == "off"@) {
            Some(v == "on"@)
        } else {
            None
        },
        None => None,
    }
}

/// What a line sets the language to (`None` inside for `auto`), if it sets it.
pub open spec fn language_of(line: Seq<char>) -> Option<Option<Lang>> {
    match assignment(line) {
        Some((k, v)) => if k == "language"@ {
            if v == "auto"@ {
                Some(None)
            } else {
                match parse_lang_name(v) {
                    Some(l) => Some(Some(l)),
                    None => None,
                }
            }
        } else {
            None
        },
        None => None,
    }
}

/// The value the last line setting a switch gives it.
pub open spec fn last_switch(ls: Seq<Seq<char>>, key: Seq<char>) -> Option<bool>
    decreases ls.len(),
{
    if ls.len() == 0 {
        None
    } else {
        match last_switch(ls.drop_first(), key) {
            Some(v) => Some(v),
            None => switch_of(ls[0], key),
        }
    }
}

/// The value the last line setting the language gives it.
pub open spec fn last_language(ls: Seq<Seq<char>>) -> Option<Option<Lang>>
    decreases ls.len(),
{
    if ls.len() == 0 {
        None
    } else {
        match last_language(ls.drop_first()) {
            Some(v) => Some(v),
            None => language_of(ls[0]),
        }
    }
}

proof fn lemma_parse_is_lines(st: Settings, cur: Seq<char>, t: Seq<char>)
    ensures
        parse_from(st, cur, t) == apply_lines(st, lines_from(cur, t)),
    decreases t.len(),
{
    if t.len() == 0 {
        assert(seq![cur].drop_first() =~= Seq::<Seq<char>>::empty());
        assert(apply_lines(apply_line(st, cur), Seq::<Seq<char>>::empty()) == apply_line(st, cur));
        assert(seq![cur][0] == cur);
    } else if t[0] == '\n' {
        lemma_parse_is_lines(apply_line(st, cur), Seq::empty(), t.drop_first());
        let l = seq![cur] + lines_from(Seq::empty(), t.drop_first());
        assert(l[0] == cur);
        assert(l.drop_first() =~= lines_from(Seq::empty(), t.drop_first()));
    } else {
        lemma_parse_is_lines(st, cur.push(t[0]), t.drop_first());
    }
}

proof fn lemma_apply_line_fields(st: Settings, l: Seq<char>)
    ensures
        apply_line(st, l).notify_power == match switch_of(l, "notify_power"@) {
            Some(v) => v,
            None => st.notify_power,
        },
        apply_line(st, l).notify_battery == match switch_of(l, "notify_battery"@) {
            Some(v) => v,
            None => st.notify_battery,
        },
        apply_line(st, l).language == match language_of(l) {
            Some(v) => v,
            None => st.language,
        },
{
    reveal_strlit("language");
    reveal_strlit("notify_power");
    reveal_strlit("notify_battery");
    assert("language"@.len() != "notify_power"@.len());
    assert("language"@.len() != "notify_battery"@.len());
    assert("notify_power"@ != "notify_battery"@) by {
        assert("notify_power"@[7] != "notify_battery"@[7]);
    }
    let line = trim(l);
    if !(line.len() == 0 || line[0] == '#') {
        match find_from(line, '=', 0) {
            Some(e) => {
                let key = trim(line.take(e));
                let value = trim(line.skip(e + 1));
                assert(assignment(l) == Some((key, value)));
            },
            None => {},
        }
    }
}

proof fn lemma_apply_lines_fields(st: Settings, ls: Seq<Seq<char>>)
    ensures
        apply_lines(st, ls).notify_power == match last_switch(ls, "notify_power"@) {
            Some(v) => v,
            None => st.notify_power,
        },
        apply_lines(st, ls).notify_battery == match last_switch(ls, "notify_battery"@) {
            Some(v) => v,
            None => st.notify_battery,
        },
        apply_lines(st, ls).language == match last_language(ls) {
            Some(v) => v,
            None => st.language,
        },
    decreases ls.len(),
{
    if ls.len() > 0 {
        lemma_apply_line_fields(st, ls[0]);
        lemma_apply_lines_fields(apply_line(st, ls[0]), ls.drop_first());
    }
}

/// Each preference is what the last usable line for its key with a value it accepts says,
/// and its default when no line says anything usable: lines that are not understood never
/// count, and a later line overrides an earlier one.
pub proof fn lemma_parse_takes_last_usable_line(t: Seq<char>)
    ensures
        parse_text(t).notify_power == match last_switch(lines_of(t), "notify_power"@) {
            Some(v) => v,
            None => true,
        },
        parse_text(t).notify_battery == match last_switch(lines_of(t), "notify_battery"@) {
            Some(v) => v,
            None => true,
        },
        parse_text(t).language == match last_language(lines_of(t)) {
            Some(v) => v,
            None => None,
        },
{
    lemma_parse_is_lines(default_settings(), Seq::empty(), t);
    lemma_apply_lines_fields(default_settings(), lines_of(t));
}

} // verus!
