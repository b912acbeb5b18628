//! The `KEY=VALUE` settings file: one setting per line, split at the first
//! `=`, with whitespace around keys and values removed. Lines without `=` are
//! ignored; a later line overrides an earlier one with the same key.

use vstd::prelude::*;
use vstd::string::{StrSliceExecFns, StringExecFns};
use crate::text::text_equals;

verus! {

/// One setting read from the file.
#[derive(Clone, Debug)]
pub struct Setting {
    pub key: String,
    pub value: String,
}

/// Unicode `White_Space` characters, those that `str::trim` removes.
pub open spec fn is_space(c: char) -> bool {
    ('\u{9}' <= c && c <= '\u{d}') || c == ' ' || c == '\u{85}' || c == '\u{a0}' || c == '\u{1680}'
        || ('\u{2000}' <= c && c <= '\u{200a}') || c == '\u{2028}' || c == '\u{2029}' || c
        == '\u{202f}' || c == '\u{205f}' || c == '\u{3000}'
}

/// `s` without its leading whitespace.
pub open spec fn trim_start(s: Seq<char>) -> Seq<char>
    decreases s.len(),
{
    if s.len() > 0 && is_space(s[0]) {
        trim_start(s.drop_first())
    } else {
        s
    }
}

/// `s` without its trailing whitespace.
pub open spec fn trim_end(s: Seq<char>) -> Seq<char>
    decreases s.len(),
{
    if s.len() > 0 && is_space(s.last()) {
        trim_end(s.drop_last())
    } else {
        s
    }
}

/// `s` without leading and trailing whitespace.
pub open spec fn trimmed(s: Seq<char>) -> Seq<char> {
    trim_end(trim_start(s))
}

/// Index of the first `c` in `s`, or its length when there is none.
pub open spec fn first_index(s: Seq<char>, c: char) -> int
    decreases s.len(),
{
    if s.len() == 0 {
        0
    } else if s[0] == c {
        0
    } else {
        1 + first_index(s.drop_first(), c)
    }
}

/// The setting a line holds: nothing without `=`, otherwise the trimmed text
/// before the first `=` and the trimmed text after it.
pub open spec fn line_setting(line: Seq<char>) -> Seq<(Seq<char>, Seq<char>)> {
    let k = first_index(line, '=');
    if k < line.len() {
        seq![(trimmed(line.subrange(0, k)), trimmed(line.subrange(k + 1, line.len() as int)))]
    } else {
        seq![]
    }
}

/// The settings of a file, line by line.
pub open spec fn settings_of(s: Seq<char>) -> Seq<(Seq<char>, Seq<char>)>
    decreases s.len(),
{
    if s.len() == 0 {
        seq![]
    } else {
        let i = first_index(s, '\n');
        line_setting(s.subrange(0, i)) + if 0 <= i < s.len() {
            settings_of(s.subrange(i + 1, s.len() as int))
        } else {
            seq![]
        }
    }
}

/// The view of a list of settings as pairs of texts.
pub open spec fn settings_view(settings: Seq<Setting>) -> Seq<(Seq<char>, Seq<char>)> {
    settings.map_values(|e: Setting| (e.key@, e.value@))
}

proof fn lemma_first_index(s: Seq<char>, c: char, k: int)
    requires
        0 <= k <= s.len(),
        forall|j: int| 0 <= j < k ==> s[j] != c,
        k < s.len() ==> s[k] == c,
    ensures
        first_index(s, c) == k,
    decreases s.len(),
{
    if s.len() > 0 && k > 0 {
        let t = s.drop_first();
        assert forall|j: int| 0 <= j < k - 1 implies t[j] != c by {
            assert(t[j] == s[j + 1]);
        }
        lemma_first_index(t, c, k - 1);
    }
}

proof fn lemma_trim_start(s: Seq<char>, k: int)
    requires
        0 <= k <= s.len(),
        forall|j: int| 0 <= j < k ==> is_space(s[j]),
        k < s.len() ==> !is_space(s[k]),
    ensures
        trim_start(s) == s.subrange(k, s.len() as int),
    decreases s.len(),
{
    if k == 0 {
        assert(s.subrange(0, s.len() as int) == s);
    } else {
        let t = s.drop_first();
        assert forall|j: int| 0 <= j < k - 1 implies is_space(t[j]) by {
            assert(t[j] == s[j + 1]);
        }
        lemma_trim_start(t, k - 1);
        assert(t.subrange(k - 1, t.len() as int) == s.subrange(k, s.len() as int));
    }
}

proof fn lemma_trim_end(s: Seq<char>, k: int)
    requires
        0 <= k <= s.len(),
        forall|j: int| k <= j < s.len() ==> is_space(s[j]),
        k > 0 ==> !is_space(s[k - 1]),
    ensures
        trim_end(s) == s.subrange(0, k),
    decreases s.len(),
{
    if k == s.len() {
        assert(s.subrange(0, k) == s);
    } else {
        let t = s.drop_last();
        assert forall|j: int| k <= j < t.len() implies is_space(t[j]) by {
            assert(t[j] == s[j]);
        }
        lemma_trim_end(t, k);
        assert(t.subrange(0, k) == s.subrange(0, k));
    }
}

fn is_space_char(c: char) -> (r: bool)
    ensures
        r == is_space(c),
{
    ('\u{9}' <= c && c <= '\u{d}') || c == ' ' || c == '\u{85}' || c == '\u{a0}' || c == '\u{1680}'
        || ('\u{2000}' <= c && c <= '\u{200a}') || c == '\u{2028}' || c == '\u{2029}' || c
        == '\u{202f}' || c == '\u{205f}' || c == '\u{3000}'
}

/// The characters of `s` in `[from, to)` with surrounding whitespace removed.
fn trimmed_part(s: &str, from: usize, to: usize) -> (r: String)
    requires
        from <= to <= s@.len(),
    ensures
        r@ == trimmed(s@.subrange(from as int, to as int)),
{
    let ghost part = s@.subrange(from as int, to as int);
    let mut lo: usize = from;
    while lo < to && is_space_char(s.get_char(lo))
        invariant
            from <= lo <= to <= s@.len(),
            forall|j: int| from <= j < lo ==> is_space(s@[j]),
        decreases to - lo,
    {
        lo = lo + 1;
    }
    proof {
        lemma_trim_start(part, lo - from);
        assert(part.subrange(lo - from, part.len() as int) == s@.subrange(lo as int, to as int));
    }
    let mut hi: usize = to;
    while hi > lo && is_space_char(s.get_char(hi - 1))
        invariant
            from <= lo <= hi <= to <= s@.len(),
            forall|j: int| hi <= j < to ==> is_space(s@[j]),
        decreases hi - lo,
    {
        hi = hi - 1;
    }
    proof {
        let rest = s@.subrange(lo as int, to as int);
        lemma_trim_end(rest, hi - lo);
        assert(rest.subrange(0, hi - lo) == s@.subrange(lo as int, hi as int));
    }
    String::from_str(s.substring_char(lo, hi))
}

/// Reads the settings of a file's contents, in file order.
pub fn parse_settings(contents: &str) -> (r: Vec<Setting>)
    ensures
        settings_view(r@) == settings_of(contents@),
{
    let n = contents.unicode_len();
    let mut r: Vec<Setting> = Vec::new();
    let mut start: usize = 0;
    assert(contents@.subrange(0, n as int) == contents@);
    while start < n
        invariant
            n == contents@.len(),
            start <= n,
            settings_view(r@) + settings_of(contents@.subrange(start as int, n as int))
                == settings_of(contents@),
        decreases n - start,
    {
        let ghost rest = contents@.subrange(start as int, n as int);
        let mut end: usize = start;
        let mut eq: usize = n;
        while end < n && contents.get_char(end) != '\n'
            invariant
                n == contents@.len(),
                start <= end <= n,
                forall|j: int| start <= j < end ==> contents@[j] != '\n',
                eq == n || (start <= eq < end && contents@[eq as int] == '='),
                eq == n ==> forall|j: int| start <= j < end ==> contents@[j] != '=',
                eq < n ==> forall|j: int| start <= j < eq ==> contents@[j] != '=',
            decreases n - end,
        {
            if eq == n && contents.get_char(end) == '=' {
                eq = end;
            }
            end = end + 1;
        }
        let ghost line = contents@.subrange(start as int, end as int);
        proof {
            lemma_first_index(rest, '\n', end - start);
            assert forall|j: int| 0 <= j < end - start implies rest[j] != '\n' by {
                assert(rest[j] == contents@[start + j]);
            }
            lemma_first_index(rest, '\n', end - start);
            assert(rest.subrange(0, end - start) == line);
        }
        let ghost before = settings_view(r@);
        if eq < n {
            proof {
                assert forall|j: int| 0 <= j < eq - start implies line[j] != '=' by {
                    assert(line[j] == contents@[start + j]);
                }
                lemma_first_index(line, '=', eq - start);
                assert(line.subrange(0, eq - start) == contents@.subrange(start as int, eq as int));
                assert(line.subrange(eq - start + 1, line.len() as int) == contents@.subrange(
                    eq + 1,
                    end as int,
                ));
            }
            let key = trimmed_part(contents, start, eq);
            let value = trimmed_part(contents, eq + 1, end);
            r.push(Setting { key, value });
            assert(settings_view(r@) == before + line_setting(line));
        } else {
            proof {
                assert forall|j: int| 0 <= j < line.len() implies line[j] != '=' by {
                    assert(line[j] == contents@[start + j]);
                }
                lemma_first_index(line, '=', line.len() as int);
            }
            assert(line_setting(line) == Seq::<(Seq<char>, Seq<char>)>::empty());
        }
        if end == n {
            assert(settings_of(rest) == line_setting(line));
            assert(settings_of(contents@.subrange(n as int, n as int)) == Seq::<(Seq<char>, Seq<char>)>::empty());
            start = n;
        } else {
            assert(rest.subrange(end - start + 1, rest.len() as int) == contents@.subrange(
                end + 1,
                n as int,
            ));
            start = end + 1;
        }
    }
    assert(settings_of(contents@.subrange(n as int, n as int)) == Seq::<(Seq<char>, Seq<char>)>::empty());
    r
}

/// The value of `key`: the last setting with that key, when there is one.
pub open spec fn setting_value(settings: Seq<(Seq<char>, Seq<char>)>, key: Seq<char>) -> Option<
    Seq<char>,
>
    decreases settings.len(),
{
    if settings.len() == 0 {
        None
    } else if settings.last().0 == key {
        Some(settings.last().1)
    } else {
        setting_value(settings.drop_last(), key)
    }
}

/// Looks up `key`; a later setting overrides an earlier one.
pub fn lookup_setting(settings: &Vec<Setting>, key: &str) -> (r: Option<String>)
    ensures
        match r {
            Some(v) => setting_value(settings_view(settings@), key@) == Some(v@),
            None => setting_value(settings_view(settings@), key@) is None,
        },
{
    let mut i: usize = settings.len();
    assert(settings@.take(i as int) == settings@);
    while i > 0
        invariant
            i <= settings@.len(),
            setting_value(settings_view(settings@), key@) == setting_value(
                settings_view(settings@.take(i as int)),
                key@,
            ),
        decreases i,
    {
        let ghost v = settings_view(settings@.take(i as int));
        assert(v.last() == (settings@[i - 1].key@, settings@[i - 1].value@));
        assert(v.drop_last() == settings_view(settings@.take(i - 1)));
        if text_equals(settings[i - 1].key.as_str(), key) {
            return Some(settings[i - 1].value.clone());
        }
        i = i - 1;
    }
    None
}

} // verus!
