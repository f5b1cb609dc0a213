//! LRC lyric parsing and the small text utilities of the lyric search:
//! timestamps, merged lyric tables, URL encoding and title matching.

use std::collections::BTreeMap;
use vstd::std_specs::iter::IteratorSpec;
use vstd::std_specs::cmp::OrdSpec;
use vstd::laws_cmp::obeys_cmp;
use vstd::std_specs::btree::{increasing_seq, key_obeys_cmp_spec, spec_btree_map_iter};
use vstd::prelude::*;
use crate::text::{
    all_digits, chars_of, digit_value, digits_value, is_digit, lemma_digits_value_prefix_mono, lemma_split_len,
    parse_u64, parse_u64_spec, split, split_chars, split_once, string_of, trim, trim_chars,
    push_char, to_lowercase, is_alphanumeric, contains_chars, contains_sub, lower_text,
    alnum,
};

verus! {

/// One timed lyric line.
pub struct LyricLine {
    pub time_ms: u64,
    pub text: String,
}

impl Clone for LyricLine {
    fn clone(&self) -> (r: Self)
        ensures
            r.time_ms == self.time_ms,
            r.text@ == self.text@,
    {
        LyricLine { time_ms: self.time_ms, text: self.text.clone() }
    }
}

/// `10` to the power `k`.
pub open spec fn pow10(k: nat) -> nat
    decreases k,
{
    if k == 0 {
        1
    } else {
        10 * pow10((k - 1) as nat)
    }
}

/// The ASCII digits of `s`, in order.
pub open spec fn filter_digits(s: Seq<char>) -> Seq<char>
    decreases s.len(),
{
    if s.len() == 0 {
        s
    } else if is_digit(s.last()) {
        filter_digits(s.drop_last()).push(s.last())
    } else {
        filter_digits(s.drop_last())
    }
}

/// The milliseconds written by the fraction digits `raw` of a timestamp:
/// one digit means tenths, two mean hundredths, three milliseconds, and
/// further digits are cut off. A digit string too long for a `u64` counts
/// as zero.
pub open spec fn fraction_ms(raw: Seq<char>) -> nat {
    let v = if digits_value(raw) <= u64::MAX {
        digits_value(raw)
    } else {
        0
    };
    if raw.len() == 0 {
        0
    } else if raw.len() == 1 {
        v * 100
    } else if raw.len() == 2 {
        v * 10
    } else if raw.len() > 3 {
        v / pow10((raw.len() - 3) as nat)
    } else {
        v
    }
}

/// The seconds field and the optional fraction field of a timestamp whose
/// `:`-separated pieces are `parts`.
pub open spec fn seconds_and_fraction(parts: Seq<Seq<char>>) -> (Seq<char>, Option<Seq<char>>) {
    let rest = parts[1];
    match split_once(rest, '.') {
        Some((a, b)) => (a, Some(b)),
        None => if parts.len() > 2 {
            (parts[1], Some(parts[2]))
        } else {
            (rest, None)
        },
    }
}

/// The time in milliseconds of an LRC timestamp `mm:ss`, `mm:ss.xx` or
/// `mm:ss:xx`; `None` when a field does not parse or the total exceeds `u64`.
pub open spec fn parse_time_spec(t: Seq<char>) -> Option<u64> {
    let parts = split(t, ':');
    if parts.len() < 2 {
        None
    } else {
        match parse_u64_spec(parts[0]) {
            None => None,
            Some(mins) => {
                let (secs_str, ms_str) = seconds_and_fraction(parts);
                match parse_u64_spec(secs_str) {
                    None => None,
                    Some(secs) => {
                        let ms: nat = match ms_str {
                            None => 0,
                            Some(m) => fraction_ms(filter_digits(m)),
                        };
                        let total = mins * 60000 + secs * 1000 + ms;
                        if total <= u64::MAX {
                            Some(total as u64)
                        } else {
                            None
                        }
                    },
                }
            },
        }
    }
}

fn filter_digit_chars(s: &Vec<char>) -> (r: Vec<char>)
    ensures
        r@ == filter_digits(s@),
        all_digits(r@),
{
    let mut r: Vec<char> = Vec::new();
    let mut i: usize = 0;
    assert(s@.take(0) =~= Seq::<char>::empty());
    while i < s.len()
        invariant
            i <= s.len(),
            r@ == filter_digits(s@.take(i as int)),
            all_digits(r@),
        decreases s.len() - i,
    {
        assert(s@.take(i + 1).drop_last() == s@.take(i as int));
        if '0' <= s[i] && s[i] <= '9' {
            r.push(s[i]);
        }
        i = i + 1;
    }
    assert(s@.take(s.len() as int) == s@);
    r
}

/// The characters `s[a..b]`.
pub fn sub_chars(s: &Vec<char>, a: usize, b: usize) -> (r: Vec<char>)
    requires
        a <= b <= s.len(),
    ensures
        r@ == s@.subrange(a as int, b as int),
{
    let mut r: Vec<char> = Vec::new();
    let mut i: usize = a;
    while i < b
        invariant
            a <= i <= b <= s.len(),
            r@ == s@.subrange(a as int, i as int),
        decreases b - i,
    {
        r.push(s[i]);
        i = i + 1;
    }
    r
}

fn fraction_ms_exec(raw: &Vec<char>) -> (r: u64)
    requires
        all_digits(raw@),
    ensures
        r == fraction_ms(raw@),
{
    if raw.len() == 0 {
        return 0;
    }
    let parsed = digits_to_u64_from_start(raw);
    let v: u64 = match parsed {
        Some(v) => v,
        None => 0,
    };
    if raw.len() == 1 {
        assert(v <= 9) by {
            assert(raw@.drop_last() =~= Seq::<char>::empty());
            assert(is_digit(raw@[0]));
            assert(digits_value(raw@) == digits_value(raw@.drop_last()) * 10 + digit_value(raw@.last()));
        }
        v * 100
    } else if raw.len() == 2 {
        assert(v <= 99) by {
            assert(raw@.drop_last().drop_last() =~= Seq::<char>::empty());
            assert(is_digit(raw@[0]) && is_digit(raw@[1]));
            assert(raw@.drop_last().drop_last() =~= Seq::<char>::empty());
            assert(digits_value(raw@.drop_last()) == digits_value(raw@.drop_last().drop_last()) * 10
                + digit_value(raw@.drop_last().last()));
            assert(digits_value(raw@) == digits_value(raw@.drop_last()) * 10 + digit_value(raw@.last()));
        }
        v * 10
    } else if raw.len() > 3 {
        let k = raw.len() - 3;
        let mut q: u64 = v;
        let mut j: usize = 0;
        while j < k
            invariant
                j <= k,
                q == v as nat / pow10(j as nat),
            decreases k - j,
        {
            proof {
                assert(pow10(j as nat) > 0) by { lemma_pow10_pos(j as nat); }
                vstd::arithmetic::div_mod::lemma_div_denominator(v as int, pow10(j as nat) as int, 10);
                assert(pow10((j + 1) as nat) == pow10(j as nat) * 10);
            }
            q = q / 10;
            j = j + 1;
        }
        q
    } else {
        v
    }
}

proof fn lemma_pow10_pos(k: nat)
    ensures
        pow10(k) > 0,
    decreases k,
{
    if k > 0 {
        lemma_pow10_pos((k - 1) as nat);
    }
}

fn digits_to_u64_from_start(raw: &Vec<char>) -> (r: Option<u64>)
    requires
        all_digits(raw@),
    ensures
        r == (if digits_value(raw@) <= u64::MAX {
            Some(digits_value(raw@) as u64)
        } else {
            None::<u64>
        }),
{
    let mut v: u64 = 0;
    let mut i: usize = 0;
    assert(raw@.take(0) =~= Seq::<char>::empty());
    while i < raw.len()
        invariant
            i <= raw.len(),
            all_digits(raw@),
            v == digits_value(raw@.take(i as int)),
        decreases raw.len() - i,
    {
        assert(raw@.take(i + 1).drop_last() == raw@.take(i as int));
        assert(is_digit(raw@[i as int]));
        let d = (raw[i] as u32 - '0' as u32) as u64;
        if v > (u64::MAX - d) / 10 {
            proof {
                assert(v * 10 + d > u64::MAX) by (nonlinear_arith)
                    requires v > (u64::MAX - d) / 10, d <= 9;
                lemma_digits_value_prefix_mono(raw@, i + 1);
            }
            return None;
        }
        proof {
            assert(v * 10 + d <= u64::MAX) by (nonlinear_arith)
                requires v <= (u64::MAX - d) / 10, d <= 9;
        }
        v = v * 10 + d;
        i = i + 1;
    }
    assert(raw@.take(raw.len() as int) == raw@);
    Some(v)
}

/// `Some((before, after))` around the first `sep` in `s`.
pub fn split_once_chars(s: &Vec<char>, sep: char) -> (r: Option<(Vec<char>, Vec<char>)>)
    ensures
        match split_once(s@, sep) {
            None => r is None,
            Some((a, b)) => r matches Some((ra, rb)) && ra@ == a && rb@ == b,
        },
{
    let parts = split_chars(s, sep);
    if parts.len() < 2 {
        None
    } else {
        let n = parts[0].len();
        proof {
            lemma_split_first_prefix(s@, sep);
            assert(parts@[0]@ == split(s@, sep)[0]);
            assert(split(s@, sep).len() >= 2);
            assert(n == split(s@, sep)[0].len());
            assert(n < s@.len());
            assert(n < s.len());
        }
        let first = sub_chars(s, 0, n);
        let after = sub_chars(s, n + 1, s.len());
        Some((first, after))
    }
}

/// When `s` holds `sep`, the first piece of `split(s, sep)` is the prefix
/// of `s` before its first `sep`.
pub proof fn lemma_split_first_prefix(s: Seq<char>, sep: char)
    ensures
        split(s, sep).len() >= 2 ==> split(s, sep)[0].len() < s.len()
            && s[split(s, sep)[0].len() as int] == sep
            && s.take(split(s, sep)[0].len() as int) == split(s, sep)[0],
        split(s, sep).len() == 1 ==> split(s, sep)[0] == s,
        split(s, sep).len() == 1 ==> forall|i: int| 0 <= i < s.len() ==> s[i] != sep,
    decreases s.len(),
{
    if s.len() > 0 {
        lemma_split_first_prefix(s.drop_last(), sep);
        lemma_split_len(s.drop_last(), sep);
        let r = split(s.drop_last(), sep);
        if r.len() >= 2 {
            assert(split(s, sep)[0] == r[0]);
            assert(s.take(r[0].len() as int) == s.drop_last().take(r[0].len() as int));
        } else {
            assert forall|i: int| 0 <= i < s.len() - 1 implies s[i] != sep by {
                assert(s[i] == s.drop_last()[i]);
            }
            if s.last() != sep {
                assert(split(s, sep)[0] == s.drop_last().push(s.last()));
                assert(s.drop_last().push(s.last()) == s);
            } else {
                assert(split(s, sep)[0] == r[0]);
                assert(s.take(r[0].len() as int) == s.drop_last());
            }
        }
    }
}

/// The time of an LRC timestamp such as `01:02.50`, in milliseconds.
pub fn parse_time(time_str: &str) -> (r: Option<u64>)
    ensures
        r == parse_time_spec(time_str@),
{
    let t = chars_of(time_str);
    parse_time_chars(&t)
}

fn parse_time_chars(t: &Vec<char>) -> (r: Option<u64>)
    ensures
        r == parse_time_spec(t@),
{
    let parts = split_chars(t, ':');
    if parts.len() < 2 {
        return None;
    }
    let mins = match parse_u64(&parts[0]) {
        Some(m) => m,
        None => return None,
    };
    let rest = &parts[1];
    let (secs_str, ms_str): (Vec<char>, Option<Vec<char>>) = match split_once_chars(rest, '.') {
        Some((a, b)) => (a, Some(b)),
        None => {
            if parts.len() > 2 {
                (parts[1].clone(), Some(parts[2].clone()))
            } else {
                (rest.clone(), None)
            }
        },
    };
    assert(secs_str@ == seconds_and_fraction(split(t@, ':')).0);
    let secs = match parse_u64(&secs_str) {
        Some(s) => s,
        None => return None,
    };
    let ms: u64 = match ms_str {
        None => 0,
        Some(m) => {
            let raw = filter_digit_chars(&m);
            fraction_ms_exec(&raw)
        },
    };
    let total: u128 = mins as u128 * 60000 + secs as u128 * 1000 + ms as u128;
    if total <= u64::MAX as u128 {
        Some(total as u64)
    } else {
        None
    }
}

} // verus!

verus! {

/// `s` without its leading `[` characters.
pub open spec fn strip_open_brackets(s: Seq<char>) -> Seq<char>
    decreases s.len(),
{
    if s.len() > 0 && s[0] == '[' {
        strip_open_brackets(s.drop_first())
    } else {
        s
    }
}

/// The times of the timestamp tags `tags` that parse, in order.
pub open spec fn tag_times(tags: Seq<Seq<char>>) -> Seq<u64>
    decreases tags.len(),
{
    if tags.len() == 0 {
        Seq::<u64>::empty()
    } else {
        let r = tag_times(tags.drop_last());
        match parse_time_spec(strip_open_brackets(tags.last())) {
            Some(ms) => r.push(ms),
            None => r,
        }
    }
}

/// The lyric text of an LRC line: what follows its last `]`, trimmed.
pub open spec fn line_text(line: Seq<char>) -> Seq<char> {
    trim(split(trim(line), ']').last())
}

/// The times at which an LRC line places its text. A line counts when,
/// trimmed, it starts with `[` and holds a `]`; its text may be empty only
/// when `keep_empty` holds.
pub open spec fn line_times(line: Seq<char>, keep_empty: bool) -> Seq<u64> {
    let l = trim(line);
    if l.len() == 0 || l[0] != '[' {
        Seq::<u64>::empty()
    } else if split(l, ']').len() < 2 {
        Seq::<u64>::empty()
    } else if line_text(line).len() == 0 && !keep_empty {
        Seq::<u64>::empty()
    } else {
        tag_times(split(l, ']').drop_last())
    }
}

/// One entry into the lyric table: a new time takes its text; a time that
/// already holds an empty text takes a non-empty one; otherwise the first
/// text stays.
pub open spec fn merge_entry(m: Map<u64, Seq<char>>, t: u64, text: Seq<char>) -> Map<u64, Seq<char>> {
    if !m.contains_key(t) {
        m.insert(t, text)
    } else if m[t].len() == 0 && text.len() > 0 {
        m.insert(t, text)
    } else {
        m
    }
}

pub open spec fn merge_times(m: Map<u64, Seq<char>>, times: Seq<u64>, text: Seq<char>) -> Map<u64, Seq<char>>
    decreases times.len(),
{
    if times.len() == 0 {
        m
    } else {
        merge_entry(merge_times(m, times.drop_last(), text), times.last(), text)
    }
}

pub open spec fn merge_lines(m: Map<u64, Seq<char>>, lines: Seq<Seq<char>>, keep_empty: bool) -> Map<u64, Seq<char>>
    decreases lines.len(),
{
    if lines.len() == 0 {
        m
    } else {
        let l = lines.last();
        merge_times(merge_lines(m, lines.drop_last(), keep_empty), line_times(l, keep_empty), line_text(l))
    }
}

/// The lyric table of a main LRC text and a translation LRC text: all lines
/// of the main text, then all lines of the translation. Empty texts count in
/// the main text, and in the translation only when it equals the main text.
pub open spec fn lyric_table(lrc: Seq<char>, tlrc: Seq<char>) -> Map<u64, Seq<char>> {
    merge_lines(merge_lines(Map::empty(), split(lrc, '\n'), true), split(tlrc, '\n'), tlrc == lrc)
}

/// `map` holds the lyric table `m`: the same times, each with the same text.
pub open spec fn holds_table(map: Map<u64, String>, m: Map<u64, Seq<char>>) -> bool {
    &&& map.dom() == m.dom()
    &&& forall|t: u64| #[trigger] map.contains_key(t) ==> map[t]@ == m[t]
}

fn copy_chars(s: &Vec<char>) -> (r: Vec<char>)
    ensures
        r@ == s@,
{
    let r = sub_chars(s, 0, s.len());
    assert(s@.subrange(0, s@.len() as int) == s@);
    r
}

/// Enters one timed text into the table, as `merge_entry` says.
fn merge_into(map: &mut BTreeMap<u64, String>, t: u64, text: &String, Ghost(m): Ghost<Map<u64, Seq<char>>>)
    requires
        holds_table(old(map)@, m),
    ensures
        holds_table(final(map)@, merge_entry(m, t, text@)),
{
    let replace = match map.get(&t) {
        None => true,
        Some(e) => e.as_str().is_empty() && !text.as_str().is_empty(),
    };
    if replace {
        map.insert(t, text.clone());
    }
    proof {
        let m2 = merge_entry(m, t, text@);
        assert(map@.dom() =~= m2.dom());
    }
}

fn strip_open_brackets_chars(s: &Vec<char>) -> (r: Vec<char>)
    ensures
        r@ == strip_open_brackets(s@),
{
    let mut k: usize = 0;
    assert(s@.subrange(0, s@.len() as int) == s@);
    while k < s.len() && s[k] == '['
        invariant
            k <= s.len(),
            strip_open_brackets(s@) == strip_open_brackets(s@.subrange(k as int, s.len() as int)),
        decreases s.len() - k,
    {
        assert(s@.subrange(k as int, s.len() as int).drop_first() == s@.subrange(k + 1, s.len() as int));
        k = k + 1;
    }
    let r = sub_chars(s, k, s.len());
    r
}

fn tag_times_exec(tags: &Vec<Vec<char>>, n: usize) -> (r: Vec<u64>)
    requires
        n <= tags.len(),
    ensures
        r@ == tag_times(tags@.take(n as int).map_values(|v: Vec<char>| v@)),
{
    let mut r: Vec<u64> = Vec::new();
    let mut i: usize = 0;
    assert(tags@.take(0).map_values(|v: Vec<char>| v@) =~= Seq::<Seq<char>>::empty());
    while i < n
        invariant
            i <= n <= tags.len(),
            r@ == tag_times(tags@.take(i as int).map_values(|v: Vec<char>| v@)),
        decreases n - i,
    {
        let ghost prev = tags@.take(i as int).map_values(|v: Vec<char>| v@);
        let ghost next = tags@.take(i + 1).map_values(|v: Vec<char>| v@);
        assert(next.drop_last() =~= prev);
        assert(next.last() == tags@[i as int]@);
        let stripped = strip_open_brackets_chars(&tags[i]);
        match parse_time_chars(&stripped) {
            Some(ms) => r.push(ms),
            None => {},
        }
        i = i + 1;
    }
    r
}

/// The times and the text that one LRC line contributes.
fn line_entries(line: &Vec<char>, keep_empty: bool) -> (r: (Vec<u64>, Vec<char>))
    ensures
        r.0@ == line_times(line@, keep_empty),
        r.1@ == line_text(line@),
{
    let l = trim_chars(line);
    let parts = split_chars(&l, ']');
    proof { lemma_split_len(l@, ']'); }
    let text = trim_chars(&parts[parts.len() - 1]);
    assert(text@ == line_text(line@));
    if l.len() == 0 || l[0] != '[' {
        return (Vec::new(), text);
    }
    if parts.len() < 2 {
        return (Vec::new(), text);
    }
    if text.len() == 0 && !keep_empty {
        return (Vec::new(), text);
    }
    let times = tag_times_exec(&parts, parts.len() - 1);
    proof {
        let sp = split(l@, ']');
        assert(parts@.take(parts.len() - 1).map_values(|v: Vec<char>| v@) =~= sp.drop_last());
    }
    (times, text)
}

fn merge_content(map: &mut BTreeMap<u64, String>, content: &Vec<char>, keep_empty: bool, Ghost(m): Ghost<Map<u64, Seq<char>>>)
    requires
        holds_table(old(map)@, m),
    ensures
        holds_table(final(map)@, merge_lines(m, split(content@, '\n'), keep_empty)),
{
    let lines = split_chars(content, '\n');
    let ghost ls = split(content@, '\n');
    let mut i: usize = 0;
    assert(ls.take(0) =~= Seq::<Seq<char>>::empty());
    while i < lines.len()
        invariant
            i <= lines.len() == ls.len(),
            forall|j: int| 0 <= j < lines@.len() ==> (#[trigger] lines@[j])@ == ls[j],
            holds_table(map@, merge_lines(m, ls.take(i as int), keep_empty)),
        decreases lines.len() - i,
    {
        let ghost before = merge_lines(m, ls.take(i as int), keep_empty);
        assert(ls.take(i + 1).drop_last() =~= ls.take(i as int));
        assert(ls.take(i + 1).last() == lines@[i as int]@);
        let (times, chars) = line_entries(&lines[i], keep_empty);
        let text = string_of(&chars);
        let mut j: usize = 0;
        assert(times@.take(0) =~= Seq::<u64>::empty());
        while j < times.len()
            invariant
                j <= times.len(),
                holds_table(map@, merge_times(before, times@.take(j as int), text@)),
            decreases times.len() - j,
        {
            assert(times@.take(j + 1).drop_last() =~= times@.take(j as int));
            merge_into(map, times[j], &text, Ghost(merge_times(before, times@.take(j as int), text@)));
            j = j + 1;
        }
        assert(times@.take(times.len() as int) == times@);
        i = i + 1;
    }
    assert(ls.take(lines.len() as int) == ls);
}

/// Whether two character vectors are equal.
pub fn chars_equal(a: &Vec<char>, b: &Vec<char>) -> (r: bool)
    ensures
        r == (a@ == b@),
{
    if a.len() != b.len() {
        return false;
    }
    let mut i: usize = 0;
    while i < a.len()
        invariant
            i <= a.len() == b.len(),
            forall|j: int| 0 <= j < i ==> a@[j] == b@[j],
        decreases a.len() - i,
    {
        if a[i] != b[i] {
            return false;
        }
        i = i + 1;
    }
    assert(a@ =~= b@);
    true
}

/// `lines` are the entries of the table `m`, each once, in increasing time.
pub open spec fn lines_of_table(lines: Seq<LyricLine>, m: Map<u64, Seq<char>>) -> bool {
    &&& forall|i: int, j: int| 0 <= i < j < lines.len() ==> lines[i].time_ms < lines[j].time_ms
    &&& forall|i: int| 0 <= i < lines.len() ==> m.contains_key(#[trigger] lines[i].time_ms)
        && m[lines[i].time_ms] == lines[i].text@
    &&& forall|t: u64| m.contains_key(t) ==> exists|i: int| 0 <= i < lines.len() && #[trigger] lines[i].time_ms == t
}

/// Keys that a `BTreeMap` hands out in increasing order strictly increase.
proof fn lemma_increasing_times(keys: Seq<u64>)
    requires
        increasing_seq(keys),
    ensures
        forall|i: int, j: int| 0 <= i < j < keys.len() ==> keys[i] < keys[j],
{
    assert(obeys_cmp::<u64>());
    assert forall|i: int, j: int| 0 <= i < j < keys.len() implies keys[i] < keys[j] by {
        assert(keys[i].cmp_spec(&keys[j]) is Less);
    }
}

/// Parses a main LRC text and its translation into one timed table.
pub fn parse_lyrics(lrc: &str, tlrc: &str) -> (r: Vec<LyricLine>)
    ensures
        lines_of_table(r@, lyric_table(lrc@, tlrc@)),
{
    let a = chars_of(lrc);
    let b = chars_of(tlrc);
    let mut map: BTreeMap<u64, String> = BTreeMap::new();
    merge_content(&mut map, &a, true, Ghost(Map::empty()));
    let keep = chars_equal(&b, &a);
    merge_content(&mut map, &b, keep, Ghost(merge_lines(Map::empty(), split(a@, '\n'), true)));
    let ghost table = lyric_table(lrc@, tlrc@);
    assert(key_obeys_cmp_spec::<u64>());
    let ghost entries = spec_btree_map_iter(&map).remaining();
    let mut r: Vec<LyricLine> = Vec::new();
    for (t, s) in it: map.iter()
        invariant
            it.seq() == entries,
            holds_table(map@, table),
            r@.len() == it.index(),
            forall|j: int| 0 <= j < it.index() ==> (#[trigger] r@[j]).time_ms == *it.seq()[j].0
                && r@[j].text@ == (*it.seq()[j].1)@,
    {
        r.push(LyricLine { time_ms: *t, text: s.clone() });
    }
    proof {
        let keys = entries.map_values(|kv: (&u64, &String)| *kv.0);
        assert(increasing_seq(keys));
        lemma_increasing_times(keys);
        assert forall|i: int, j: int| 0 <= i < j < r@.len() implies r@[i].time_ms < r@[j].time_ms by {
            assert(keys[i] == r@[i].time_ms);
            assert(keys[j] == r@[j].time_ms);
        }
        assert forall|t: u64| table.contains_key(t) implies exists|i: int|
            0 <= i < r@.len() && #[trigger] r@[i].time_ms == t by {
            assert(map@.contains_key(t));
            assert(entries.contains((&t, &map@[t])));
            let i = choose|i: int| 0 <= i < entries.len() && entries[i] == (&t, &map@[t]);
            assert(r@[i].time_ms == t);
        }
        assert forall|i: int| 0 <= i < r@.len() implies table.contains_key(#[trigger] r@[i].time_ms)
            && table[r@[i].time_ms] == r@[i].text@ by {
            assert(map@.contains_key(*entries[i].0));
        }
    }
    r
}

} // verus!

verus! {

/// The upper-case hexadecimal digit for `d < 16`.
pub open spec fn hex_digit(d: nat) -> char {
    if d < 10 {
        (('0' as u32) + d) as char
    } else {
        (('A' as u32) + d - 10) as char
    }
}

/// A byte that a URL query keeps as it is.
pub open spec fn unreserved(b: u8) -> bool {
    ('0' as u8 <= b <= '9' as u8) || ('a' as u8 <= b <= 'z' as u8) || ('A' as u8 <= b <= 'Z' as u8)
        || b == '-' as u8 || b == '_' as u8 || b == '.' as u8 || b == '~' as u8
}

/// The URL encoding of one byte: unreserved bytes stay, a space becomes
/// `%20`, any other byte becomes `%` and two upper-case hex digits.
pub open spec fn url_encode_byte(b: u8) -> Seq<char> {
    if unreserved(b) {
        seq![b as char]
    } else if b == 0x20 {
        seq!['%', '2', '0']
    } else {
        seq!['%', hex_digit((b / 16) as nat), hex_digit((b % 16) as nat)]
    }
}

/// The URL encoding of a byte string.
pub open spec fn url_encode_bytes(bs: Seq<u8>) -> Seq<char>
    decreases bs.len(),
{
    if bs.len() == 0 {
        Seq::<char>::empty()
    } else {
        url_encode_bytes(bs.drop_last()) + url_encode_byte(bs.last())
    }
}

fn hex_char(d: u8) -> (c: char)
    requires
        d < 16,
    ensures
        c == hex_digit(d as nat),
{
    if d < 10 {
        crate::text::char_from_digit(d as u32)
    } else if d == 10 { 'A' } else if d == 11 { 'B' } else if d == 12 { 'C' }
    else if d == 13 { 'D' } else if d == 14 { 'E' } else { 'F' }
}

/// The value of an upper-case hex digit.
pub open spec fn hex_value(c: char) -> int {
    if '0' <= c && c <= '9' {
        c as int - '0' as int
    } else {
        c as int - 'A' as int + 10
    }
}

/// An upper-case hex digit.
pub open spec fn upper_hex(c: char) -> bool {
    ('0' <= c && c <= '9') || ('A' <= c && c <= 'F')
}

/// The bytes a percent-encoded text stands for: `%` and two hex digits
/// give the byte of that value, any other character its own code.
pub open spec fn url_decode(cs: Seq<char>) -> Seq<u8>
    decreases cs.len(),
{
    if cs.len() == 0 {
        Seq::empty()
    } else if cs[0] == '%' && cs.len() >= 3 {
        seq![(hex_value(cs[1]) * 16 + hex_value(cs[2])) as u8] + url_decode(cs.subrange(3, cs.len() as int))
    } else {
        seq![cs[0] as u8] + url_decode(cs.drop_first())
    }
}

/// A text made only of unreserved characters and of `%` followed by two
/// upper-case hex digits.
pub open spec fn url_form(cs: Seq<char>) -> bool
    decreases cs.len(),
{
    if cs.len() == 0 {
        true
    } else if cs[0] == '%' {
        cs.len() >= 3 && upper_hex(cs[1]) && upper_hex(cs[2]) && url_form(cs.subrange(3, cs.len() as int))
    } else {
        (cs[0] as u32) < 128 && unreserved(cs[0] as u8) && url_form(cs.drop_first())
    }
}

/// How many characters the encoding of `bs` takes: one per unreserved
/// byte, three per other byte.
pub open spec fn encoded_len(bs: Seq<u8>) -> nat
    decreases bs.len(),
{
    if bs.len() == 0 {
        0
    } else {
        encoded_len(bs.drop_last()) + if unreserved(bs.last()) { 1nat } else { 3nat }
    }
}

proof fn lemma_encode_concat(a: Seq<u8>, b: Seq<u8>)
    ensures
        url_encode_bytes(a + b) == url_encode_bytes(a) + url_encode_bytes(b),
    decreases b.len(),
{
    if b.len() == 0 {
        assert(a + b =~= a);
        assert(url_encode_bytes(a) + url_encode_bytes(b) =~= url_encode_bytes(a));
    } else {
        lemma_encode_concat(a, b.drop_last());
        assert((a + b).drop_last() =~= a + b.drop_last());
        assert((a + b).last() == b.last());
        assert(url_encode_bytes(a + b) =~= url_encode_bytes(a) + url_encode_bytes(b));
    }
}

proof fn lemma_hex_digit(d: nat)
    requires
        d < 16,
    ensures
        upper_hex(hex_digit(d)),
        hex_value(hex_digit(d)) == d,
        hex_digit(d) != '%',
{
}

proof fn lemma_decode_unit(b: u8, rest: Seq<char>)
    ensures
        url_decode(url_encode_byte(b) + rest) == seq![b] + url_decode(rest),
        url_form(url_encode_byte(b) + rest) == url_form(rest),
{
    let u = url_encode_byte(b) + rest;
    if unreserved(b) {
        assert(u[0] == b as char);
        assert(u.drop_first() =~= rest);
        assert((b as char) as u8 == b);
        assert((b as char) as u32 == b as u32);
    } else {
        let hi = if b == 0x20 { '2' } else { hex_digit((b / 16) as nat) };
        let lo = if b == 0x20 { '0' } else { hex_digit((b % 16) as nat) };
        assert(url_encode_byte(b) == seq!['%', hi, lo]);
        lemma_hex_digit((b / 16) as nat);
        lemma_hex_digit((b % 16) as nat);
        assert(u[0] == '%' && u[1] == hi && u[2] == lo);
        assert(u.subrange(3, u.len() as int) =~= rest);
        assert(hex_value(hi) * 16 + hex_value(lo) == b);
    }
}

/// Percent-decoding the encoding of a byte string gives back the bytes; the
/// encoding holds only unreserved characters and `%` with two upper-case
/// hex digits; it takes one character per unreserved byte and three per
/// other byte.
pub proof fn url_encoding_round_trip(bs: Seq<u8>)
    ensures
        url_decode(url_encode_bytes(bs)) == bs,
        url_form(url_encode_bytes(bs)),
        url_encode_bytes(bs).len() == encoded_len(bs),
    decreases bs.len(),
{
    if bs.len() == 0 {
        assert(url_encode_bytes(bs) =~= Seq::<char>::empty());
    } else {
        let tail = bs.drop_first();
        url_encoding_round_trip(tail);
        lemma_encode_concat(seq![bs[0]], tail);
        assert(seq![bs[0]] + tail =~= bs);
        let one = seq![bs[0]];
        assert(one.drop_last() =~= Seq::<u8>::empty());
        assert(one.last() == bs[0]);
        assert(url_encode_bytes(one.drop_last()) =~= Seq::<char>::empty());
        assert(url_encode_bytes(one) == url_encode_bytes(one.drop_last()) + url_encode_byte(one.last()));
        assert(url_encode_bytes(one) =~= url_encode_byte(bs[0]));
        lemma_decode_unit(bs[0], url_encode_bytes(tail));
        assert(url_encode_bytes(bs) == url_encode_byte(bs[0]) + url_encode_bytes(tail));
        assert(url_decode(url_encode_bytes(bs)) == seq![bs[0]] + tail);
        assert(seq![bs[0]] + tail =~= bs);
        lemma_encoded_len(bs);
    }
}

proof fn lemma_encoded_len(bs: Seq<u8>)
    ensures
        url_encode_bytes(bs).len() == encoded_len(bs),
    decreases bs.len(),
{
    if bs.len() > 0 {
        lemma_encoded_len(bs.drop_last());
    }
}

/// Percent-encodes the UTF-8 bytes of `input` for a URL query.
pub fn url_encode(input: &str) -> (r: String)
    ensures
        r@ == url_encode_bytes(vstd::utf8::encode_utf8(input@)),
{
    let bytes = input.as_bytes();
    let mut out = String::new();
    let mut i: usize = 0;
    assert(bytes@.take(0) =~= Seq::<u8>::empty());
    while i < bytes.len()
        invariant
            i <= bytes@.len(),
            bytes@ == vstd::utf8::encode_utf8(input@),
            out@ == url_encode_bytes(bytes@.take(i as int)),
        decreases bytes.len() - i,
    {
        let b = bytes[i];
        assert(bytes@.take(i + 1).drop_last() == bytes@.take(i as int));
        let ghost before = out@;
        if (48u8 <= b && b <= 57u8) || (97u8 <= b && b <= 122u8) || (65u8 <= b && b <= 90u8) || b == 45u8
            || b == 95u8 || b == 46u8 || b == 126u8 {
            push_char(&mut out, b as char);
        } else if b == 32u8 {
            push_char(&mut out, '%');
            push_char(&mut out, '2');
            push_char(&mut out, '0');
            assert(out@ == before + seq!['%', '2', '0']);
        } else {
            push_char(&mut out, '%');
            push_char(&mut out, hex_char(b / 16));
            push_char(&mut out, hex_char(b % 16));
            assert(out@ == before + url_encode_byte(b));
        }
        i = i + 1;
    }
    assert(bytes@.take(bytes@.len() as int) == bytes@);
    out
}

/// The pieces of `s` between characters that are not alphanumeric.
pub open spec fn split_words(s: Seq<char>) -> Seq<Seq<char>>
    decreases s.len(),
{
    if s.len() == 0 {
        seq![Seq::<char>::empty()]
    } else {
        let r = split_words(s.drop_last());
        if !alnum(s.last()) {
            r.push(Seq::<char>::empty())
        } else {
            r.update(r.len() - 1, r.last().push(s.last()))
        }
    }
}

proof fn lemma_split_words_len(s: Seq<char>)
    ensures
        split_words(s).len() >= 1,
    decreases s.len(),
{
    if s.len() > 0 {
        lemma_split_words_len(s.drop_last());
    }
}

/// The words of `ws` longer than two bytes in UTF-8.
pub open spec fn long_words(ws: Seq<Seq<char>>) -> Seq<Seq<char>>
    decreases ws.len(),
{
    if ws.len() == 0 {
        ws
    } else if vstd::utf8::encode_utf8(ws.last()).len() > 2 {
        long_words(ws.drop_last()).push(ws.last())
    } else {
        long_words(ws.drop_last())
    }
}

/// A search query is related to a song name when, both lowered, one
/// contains the other, or the name contains one of the query's words that
/// are longer than two bytes.
pub open spec fn query_matches_spec(query: Seq<char>, song_name: Seq<char>) -> bool {
    let q = lower_text(query);
    let n = lower_text(song_name);
    ||| contains_sub(q, n)
    ||| contains_sub(n, q)
    ||| exists|i: int| 0 <= i < long_words(split_words(q)).len()
        && contains_sub(n, #[trigger] long_words(split_words(q))[i])
}

fn split_words_chars(s: &Vec<char>) -> (r: Vec<Vec<char>>)
    ensures
        r@.len() == split_words(s@).len(),
        forall|i: int| 0 <= i < r@.len() ==> (#[trigger] r@[i])@ == split_words(s@)[i],
{
    let mut done: Vec<Vec<char>> = Vec::new();
    let mut cur: Vec<char> = Vec::new();
    let mut i: usize = 0;
    assert(s@.take(0) =~= Seq::<char>::empty());
    while i < s.len()
        invariant
            i <= s.len(),
            done@.len() + 1 == split_words(s@.take(i as int)).len(),
            forall|j: int| 0 <= j < done@.len() ==> (#[trigger] done@[j])@ == split_words(s@.take(i as int))[j],
            cur@ == split_words(s@.take(i as int)).last(),
        decreases s.len() - i,
    {
        let c = s[i];
        let ghost prev = s@.take(i as int);
        assert(s@.take(i + 1).drop_last() == prev);
        assert(s@.take(i + 1).last() == c);
        proof { lemma_split_words_len(prev); }
        if !is_alphanumeric(c) {
            done.push(cur);
            cur = Vec::new();
        } else {
            cur.push(c);
        }
        i = i + 1;
    }
    assert(s@.take(s.len() as int) == s@);
    done.push(cur);
    done
}

/// The number of bytes of the UTF-8 encoding of `c`.
pub open spec fn utf8_width(c: char) -> nat {
    let v = c as u32;
    if vstd::utf8::has_width_1_encoding(v) {
        1
    } else if vstd::utf8::has_width_2_encoding(v) {
        2
    } else if vstd::utf8::has_width_3_encoding(v) {
        3
    } else {
        4
    }
}

/// The UTF-8 encoding of a text is the encoding of its first character,
/// `utf8_width` bytes long, followed by that of the rest.
pub proof fn lemma_encode_len(s: Seq<char>)
    ensures
        vstd::utf8::encode_utf8(s).len() == if s.len() == 0 {
            0
        } else {
            utf8_width(s[0]) + vstd::utf8::encode_utf8(s.drop_first()).len()
        },
{
}

/// Whether the UTF-8 encoding of `s` is longer than two bytes.
fn utf8_longer_than_two(s: &Vec<char>) -> (r: bool)
    ensures
        r == (vstd::utf8::encode_utf8(s@).len() > 2),
{
    let mut acc: u64 = 0;
    let mut i: usize = 0;
    assert(s@.subrange(0, s@.len() as int) == s@);
    while i < s.len()
        invariant
            i <= s.len(),
            acc <= 2,
            acc + vstd::utf8::encode_utf8(s@.subrange(i as int, s@.len() as int)).len()
                == vstd::utf8::encode_utf8(s@).len(),
        decreases s.len() - i,
    {
        let ghost suf = s@.subrange(i as int, s@.len() as int);
        proof { lemma_encode_len(suf); }
        assert(suf.drop_first() == s@.subrange(i + 1, s@.len() as int));
        assert(suf[0] == s@[i as int]);
        let v = s[i] as u32;
        let w: u64 = if v <= 0x7f { 1 } else if v <= 0x7ff { 2 } else if v <= 0xffff && !(0xd800 <= v && v <= 0xdfff) { 3 } else { 4 };
        assert(w == utf8_width(s@[i as int]));
        if acc + w > 2 {
            return true;
        }
        acc = acc + w;
        i = i + 1;
    }
    assert(s@.subrange(s@.len() as int, s@.len() as int) =~= Seq::<char>::empty());
    false
}

/// Whether a search query is related to a song name.
pub fn query_matches_song(query: &str, song_name: &str) -> (r: bool)
    ensures
        r == query_matches_spec(query@, song_name@),
{
    let q = chars_of(to_lowercase(query).as_str());
    let n = chars_of(to_lowercase(song_name).as_str());
    assert(q@ == lower_text(query@));
    assert(n@ == lower_text(song_name@));
    if contains_chars(&q, &n) || contains_chars(&n, &q) {
        return true;
    }
    let parts = split_words_chars(&q);
    let ghost ws = split_words(q@);
    let mut words: Vec<Vec<char>> = Vec::new();
    let mut i: usize = 0;
    assert(ws.take(0) =~= Seq::<Seq<char>>::empty());
    while i < parts.len()
        invariant
            i <= parts@.len() == ws.len(),
            forall|j: int| 0 <= j < parts@.len() ==> (#[trigger] parts@[j])@ == ws[j],
            words@.len() == long_words(ws.take(i as int)).len(),
            forall|j: int| 0 <= j < words@.len() ==> (#[trigger] words@[j])@ == long_words(ws.take(i as int))[j],
        decreases parts.len() - i,
    {
        assert(ws.take(i + 1).drop_last() =~= ws.take(i as int));
        assert(ws.take(i + 1).last() == parts@[i as int]@);
        if utf8_longer_than_two(&parts[i]) {
            let c = copy_chars(&parts[i]);
            words.push(c);
        }
        i = i + 1;
    }
    assert(ws.take(parts@.len() as int) == ws);
    let mut k: usize = 0;
    while k < words.len()
        invariant
            ws == split_words(lower_text(query@)),
            n@ == lower_text(song_name@),
            k <= words@.len() == long_words(ws).len(),
            forall|j: int| 0 <= j < words@.len() ==> (#[trigger] words@[j])@ == long_words(ws)[j],
            forall|j: int| 0 <= j < k ==> !contains_sub(n@, #[trigger] long_words(ws)[j]),
        decreases words.len() - k,
    {
        if contains_chars(&n, &words[k]) {
            assert(contains_sub(n@, long_words(ws)[k as int]));
            assert(ws == split_words(lower_text(query@)));
            assert(contains_sub(lower_text(song_name@), long_words(split_words(lower_text(query@)))[k as int]));
            return true;
        }
        k = k + 1;
    }
    false
}

/// A song name is related to a query when, both lowered, one contains the
/// other; in particular every text is related to itself.
pub proof fn containing_names_match(query: Seq<char>, song_name: Seq<char>)
    ensures
        contains_sub(lower_text(query), lower_text(song_name)) || contains_sub(lower_text(song_name), lower_text(
            query)) ==> query_matches_spec(query, song_name),
        query_matches_spec(query, query),
{
    let q = lower_text(query);
    assert(q.subrange(0, 0int + q.len()) =~= q);
    assert(contains_sub(q, q));
}

} // verus!
