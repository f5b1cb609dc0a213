//! The log file: where it lives, when it is rolled over, and the text of
//! its lines and of crash reports, stamped with a UNIX time rendered as a
//! UTC calendar date and clock time, `YYYY-MM-DD hh:mm:ss`.

use vstd::prelude::*;
use crate::text::{decimal, decimal_chars, owned, push_char, push_str};

verus! {

pub open spec fn is_leap(y: int) -> bool {
    (y % 4 == 0 && y % 100 != 0) || y % 400 == 0
}

pub open spec fn year_days(y: int) -> int {
    if is_leap(y) {
        366
    } else {
        365
    }
}

/// The number of days of month `m` (0 for January) of year `y`.
pub open spec fn month_days(y: int, m: int) -> int {
    if m == 1 {
        if is_leap(y) {
            29
        } else {
            28
        }
    } else if m == 3 || m == 5 || m == 8 || m == 10 {
        30
    } else {
        31
    }
}

/// The days from 1970-01-01 to the first day of year `y`.
pub open spec fn days_before_year(y: int) -> int
    decreases y - 1970,
{
    if y <= 1970 {
        0
    } else {
        days_before_year(y - 1) + year_days(y - 1)
    }
}

/// The days from the start of year `y` to the first day of month `m`.
pub open spec fn days_before_month(y: int, m: int) -> int
    decreases m,
{
    if m <= 0 {
        0
    } else {
        days_before_month(y, m - 1) + month_days(y, m - 1)
    }
}

/// Day `days` after 1970-01-01 falls on day `d` (from 0) of month `m`
/// (from 0) of year `y`.
pub open spec fn is_civil_date(days: int, y: int, m: int, d: int) -> bool {
    &&& y >= 1970
    &&& 0 <= m < 12
    &&& 0 <= d < month_days(y, m)
    &&& days == days_before_year(y) + days_before_month(y, m) + d
}

/// Division that rounds toward zero, as Rust's `/` on `i64` does.
pub open spec fn tdiv(a: int, b: int) -> int {
    if a >= 0 {
        a / b
    } else {
        -((-a) / b)
    }
}

/// The remainder that goes with `tdiv`, as Rust's `%` on `i64`.
pub open spec fn trem(a: int, b: int) -> int {
    a - b * tdiv(a, b)
}

/// `k` zero characters.
pub open spec fn zeros(k: int) -> Seq<char>
    decreases k,
{
    if k <= 0 {
        Seq::<char>::empty()
    } else {
        zeros(k - 1).push('0')
    }
}

/// `v` as `format!("{:0w$}", v)` writes it: a minus sign for negatives, then
/// the decimal digits of the magnitude, zero-padded after the sign to at
/// least `w` characters in all.
pub open spec fn padded(v: int, w: int) -> Seq<char> {
    if v < 0 {
        let digits = decimal((-v) as nat);
        seq!['-'] + zeros(w - 1 - digits.len()) + digits
    } else {
        let digits = decimal(v as nat);
        zeros(w - digits.len()) + digits
    }
}

/// The year, month index and day index that the day count `days` names:
/// the civil date for days on or after 1970-01-01, and for earlier counts
/// January 1970 with the (negative) count as day index.
pub open spec fn date_parts(days: int) -> (int, int, int) {
    if days >= 0 {
        choose|ymd: (int, int, int)| is_civil_date(days, ymd.0, ymd.1, ymd.2)
    } else {
        (1970, 0, days)
    }
}

/// The text of a log timestamp for `secs` seconds after the UNIX epoch,
/// with `secs` first taken as the `i64` of the same bits.
pub open spec fn timestamp_text(secs: u64) -> Seq<char> {
    let s: int = if secs <= i64::MAX {
        secs as int
    } else {
        secs - 0x1_0000_0000_0000_0000
    };
    let days = tdiv(s, 86400);
    let rem = trem(s, 86400);
    let hours = tdiv(rem, 3600);
    let rem2 = trem(rem, 3600);
    let minutes = tdiv(rem2, 60);
    let seconds = trem(rem2, 60);
    let (y, m, d) = date_parts(days);
    padded(y, 4) + seq!['-'] + padded(m + 1, 2) + seq!['-'] + padded(d + 1, 2) + seq![' ']
        + padded(hours, 2) + seq![':'] + padded(minutes, 2) + seq![':'] + padded(seconds, 2)
}

proof fn lemma_days_before_year_grows(y: int)
    requires
        y >= 1970,
    ensures
        days_before_year(y) >= 365 * (y - 1970),
    decreases y - 1970,
{
    if y > 1970 {
        lemma_days_before_year_grows(y - 1);
    }
}

proof fn lemma_days_before_year_mono(a: int, b: int)
    requires
        1970 <= a <= b,
    ensures
        days_before_year(a) <= days_before_year(b),
        a < b ==> days_before_year(a + 1) <= days_before_year(b),
    decreases b - a,
{
    if a < b {
        lemma_days_before_year_mono(a, b - 1);
    }
}

proof fn lemma_days_before_month_year(y: int)
    ensures
        days_before_month(y, 12) == year_days(y),
        forall|m: int| 0 <= m < 12 ==> days_before_month(y, m) + month_days(y, m) == days_before_month(y, m + 1),
{
    reveal_with_fuel(days_before_month, 13);
}

proof fn lemma_days_before_month_mono(y: int, a: int, b: int)
    requires
        0 <= a <= b,
    ensures
        days_before_month(y, a) <= days_before_month(y, b),
        a < b ==> days_before_month(y, a + 1) <= days_before_month(y, b),
    decreases b - a,
{
    if a < b {
        lemma_days_before_month_mono(y, a, b - 1);
    }
}

/// A day count names at most one civil date.
pub proof fn civil_date_unique(days: int, y1: int, m1: int, d1: int, y2: int, m2: int, d2: int)
    requires
        is_civil_date(days, y1, m1, d1),
        is_civil_date(days, y2, m2, d2),
    ensures
        y1 == y2 && m1 == m2 && d1 == d2,
{
    lemma_days_before_month_year(y1);
    lemma_days_before_month_year(y2);
    lemma_days_before_month_mono(y1, m1 + 1, 12);
    lemma_days_before_month_mono(y2, m2 + 1, 12);
    if y1 < y2 {
        lemma_days_before_year_mono(y1, y2);
    } else if y2 < y1 {
        lemma_days_before_year_mono(y2, y1);
    } else {
        if m1 < m2 {
            lemma_days_before_month_mono(y1, m1, m2);
        } else if m2 < m1 {
            lemma_days_before_month_mono(y1, m2, m1);
        }
    }
}

/// Appends `zeros(k)`.
fn push_zeros(out: &mut String, k: usize)
    ensures
        final(out)@ == old(out)@ + zeros(k as int),
{
    let mut i: usize = 0;
    while i < k
        invariant
            i <= k,
            out@ == old(out)@ + zeros(i as int),
        decreases k - i,
    {
        push_char(out, '0');
        assert(zeros(i + 1) == zeros(i as int).push('0'));
        i = i + 1;
    }
}

/// Appends `padded(v, w)` for `v` given by its sign and magnitude.
pub(crate) fn push_padded(out: &mut String, negative: bool, magnitude: u64, width: usize)
    requires
        negative ==> magnitude > 0,
    ensures
        final(out)@ == old(out)@ + padded(if negative { -(magnitude as int) } else { magnitude as int }, width as int),
{
    let digits = decimal_chars(magnitude);
    let ghost v: int = if negative { -(magnitude as int) } else { magnitude as int };
    let ghost start = out@;
    if negative {
        push_char(out, '-');
        if width >= 1 && width - 1 > digits.len() {
            push_zeros(out, width - 1 - digits.len());
        } else {
            assert(zeros(width - 1 - digits@.len()) =~= Seq::<char>::empty());
        }
    } else {
        if width > digits.len() {
            push_zeros(out, width - digits.len());
        } else {
            assert(zeros(width - digits@.len()) =~= Seq::<char>::empty());
        }
    }
    let mut i: usize = 0;
    let ghost mid = out@;
    while i < digits.len()
        invariant
            i <= digits.len(),
            out@ == mid + digits@.take(i as int),
        decreases digits.len() - i,
    {
        push_char(out, digits[i]);
        assert(digits@.take(i + 1) == digits@.take(i as int).push(digits@[i as int]));
        i = i + 1;
    }
    assert(digits@.take(digits@.len() as int) == digits@);
    proof {
        if negative {
            assert(mid == start + seq!['-'] + zeros(width - 1 - digits@.len()));
            assert(out@ == start + (seq!['-'] + zeros(width - 1 - digits@.len()) + digits@));
        } else {
            assert(out@ == start + (zeros(width - digits@.len()) + digits@));
        }
    }
}

/// Whether `y` is a leap year.
fn leap(y: u64) -> (r: bool)
    ensures
        r == is_leap(y as int),
{
    (y % 4 == 0 && y % 100 != 0) || y % 400 == 0
}

/// The year, month index and day index of a non-negative day count.
fn civil_from_days(days: u64) -> (r: (u64, u64, u64))
    ensures
        is_civil_date(days as int, r.0 as int, r.1 as int, r.2 as int),
{
    let mut y: u64 = 1970;
    let mut d: u64 = days;
    loop
        invariant
            y >= 1970,
            days_before_year(y as int) + d == days,
        ensures
            y >= 1970,
            days_before_year(y as int) + d == days,
            d < year_days(y as int),
        decreases d,
    {
        proof {
            lemma_days_before_year_grows(y as int);
            assert(365 * (y - 1970) <= u64::MAX);
        }
        let yd: u64 = if leap(y) { 366 } else { 365 };
        if d < yd {
            break;
        }
        d = d - yd;
        y = y + 1;
    }
    proof { lemma_days_before_month_year(y as int); }
    let mut m: u64 = 0;
    loop
        invariant
            m < 12,
            y >= 1970,
            days_before_year(y as int) + days_before_month(y as int, m as int) + d == days,
            d < days_before_month(y as int, 12) - days_before_month(y as int, m as int),
            forall|k: int| 0 <= k < 12 ==> days_before_month(y as int, k) + month_days(y as int, k)
                == days_before_month(y as int, k + 1),
        ensures
            m < 12,
            y >= 1970,
            days_before_year(y as int) + days_before_month(y as int, m as int) + d == days,
            d < month_days(y as int, m as int),
        decreases 12 - m,
    {
        let md: u64 = if m == 1 {
            if leap(y) { 29 } else { 28 }
        } else if m == 3 || m == 5 || m == 8 || m == 10 {
            30
        } else {
            31
        };
        assert(md == month_days(y as int, m as int));
        if d < md {
            break;
        }
        d = d - md;
        m = m + 1;
        if m == 12 {
            assert(false);
        }
    }
    (y, m, d)
}

/// The log timestamp of `secs`, for `secs` within `i64`.
fn format_nonnegative(secs: u64) -> (r: String)
    requires
        secs <= i64::MAX,
    ensures
        r@ == timestamp_text(secs),
{
    let mut out = String::new();
    let days = secs / 86400;
    let rem = secs % 86400;
    let hours = rem / 3600;
    let rem2 = rem % 3600;
    let minutes = rem2 / 60;
    let seconds = rem2 % 60;
    let (y, m, d) = civil_from_days(days);
    proof {
        assert(exists|ymd: (int, int, int)| is_civil_date(days as int, ymd.0, ymd.1, ymd.2)) by {
            assert(is_civil_date(days as int, (y as int, m as int, d as int).0, (y as int, m as int, d as int).1, (y as int, m as int, d as int).2));
        }
        let ymd = choose|ymd: (int, int, int)| is_civil_date(days as int, ymd.0, ymd.1, ymd.2);
        civil_date_unique(days as int, ymd.0, ymd.1, ymd.2, y as int, m as int, d as int);
        assert(date_parts(days as int) == (y as int, m as int, d as int));
        let s = secs as int;
        assert(tdiv(s, 86400) == days);
        assert(trem(s, 86400) == rem);
        assert(tdiv(rem as int, 3600) == hours);
        assert(trem(rem as int, 3600) == rem2);
        assert(tdiv(rem2 as int, 60) == minutes);
        assert(trem(rem2 as int, 60) == seconds);
    }
    push_padded(&mut out, false, y, 4);
    push_char(&mut out, '-');
    push_padded(&mut out, false, m + 1, 2);
    push_char(&mut out, '-');
    push_padded(&mut out, false, d + 1, 2);
    push_char(&mut out, ' ');
    push_padded(&mut out, false, hours, 2);
    push_char(&mut out, ':');
    push_padded(&mut out, false, minutes, 2);
    push_char(&mut out, ':');
    push_padded(&mut out, false, seconds, 2);
    assert(out@ =~= timestamp_text(secs));
    out
}

proof fn lemma_negative_parts(secs: u64)
    requires
        secs > i64::MAX,
    ensures
        ({
            let s: int = secs - 0x1_0000_0000_0000_0000;
            let a: int = 0x1_0000_0000_0000_0000 - secs;
            &&& tdiv(s, 86400) == -(a / 86400)
            &&& trem(s, 86400) == -(a % 86400)
            &&& tdiv(-(a % 86400), 3600) == -((a % 86400) / 3600)
            &&& trem(-(a % 86400), 3600) == -((a % 86400) % 3600)
            &&& tdiv(-((a % 86400) % 3600), 60) == -(((a % 86400) % 3600) / 60)
            &&& trem(-((a % 86400) % 3600), 60) == -(((a % 86400) % 3600) % 60)
            &&& date_parts(-(a / 86400)) == (1970int, 0int, -(a / 86400))
        }),
{
    let a: int = 0x1_0000_0000_0000_0000 - secs;
    if a / 86400 == 0 {
        assert(exists|ymd: (int, int, int)| is_civil_date(0, ymd.0, ymd.1, ymd.2)) by {
            assert(is_civil_date(0, (1970int, 0int, 0int).0, (1970int, 0int, 0int).1, (1970int, 0int, 0int).2));
        }
        let ymd = choose|ymd: (int, int, int)| is_civil_date(0, ymd.0, ymd.1, ymd.2);
        civil_date_unique(0, ymd.0, ymd.1, ymd.2, 1970, 0, 0);
    }
}

/// The log timestamp of `secs`, for `secs` whose `i64` reading is negative.
#[verifier::spinoff_prover]
#[verifier::rlimit(40)]
fn format_negative(secs: u64) -> (r: String)
    requires
        secs > i64::MAX,
    ensures
        r@ == timestamp_text(secs),
{
    let mut out = String::new();
    let a: u64 = (u64::MAX - secs) + 1;
    let days_mag = a / 86400;
    let rem_mag = a % 86400;
    let h_mag = rem_mag / 3600;
    let r2_mag = rem_mag % 3600;
    let mi_mag = r2_mag / 60;
    let s_mag = r2_mag % 60;
    proof { lemma_negative_parts(secs); }
    push_padded(&mut out, false, 1970, 4);
    push_char(&mut out, '-');
    push_padded(&mut out, false, 1, 2);
    push_char(&mut out, '-');
    if days_mag > 1 {
        push_padded(&mut out, true, days_mag - 1, 2);
    } else {
        push_padded(&mut out, false, 1 - days_mag, 2);
    }
    push_char(&mut out, ' ');
    push_padded(&mut out, h_mag > 0, h_mag, 2);
    push_char(&mut out, ':');
    push_padded(&mut out, mi_mag > 0, mi_mag, 2);
    push_char(&mut out, ':');
    push_padded(&mut out, s_mag > 0, s_mag, 2);
    assert(out@ =~= timestamp_text(secs));
    out
}

/// Renders `secs` seconds after the UNIX epoch as `YYYY-MM-DD hh:mm:ss` (UTC).
pub fn format_timestamp(secs: u64) -> (r: String)
    ensures
        r@ == timestamp_text(secs),
{
    if secs <= 0x7fff_ffff_ffff_ffff {
        format_nonnegative(secs)
    } else {
        format_negative(secs)
    }
}

/// The log directory, under the home directory.
pub const LOG_DIR: &'static str = ".myisland/logs";

/// The log file's name.
pub const LOG_FILE: &'static str = "myisland.log";

/// The flag file a crash leaves behind, under the home directory.
pub const CRASH_FLAG: &'static str = ".myisland/.crash_flag";

/// The size past which the log file is rolled over.
pub const MAX_LOG_SIZE: u64 = 1024000;

/// `rel` appended to the path `base` as `PathBuf::push` appends a relative
/// path: with the separator `sep` between them unless `base` is empty or
/// already ends with `/` or `sep`.
pub open spec fn joined(base: Seq<char>, rel: Seq<char>, sep: char) -> Seq<char> {
    if base.len() == 0 || base.last() == '/' || base.last() == sep {
        base + rel
    } else {
        base.push(sep) + rel
    }
}

/// Appends the relative path `rel` to `base`.
pub fn join_path(base: &str, rel: &str, sep: char) -> (r: String)
    ensures
        r@ == joined(base@, rel@, sep),
{
    let mut out = owned(base);
    let needs_sep = if base.is_empty() {
        false
    } else {
        let cs = crate::text::chars_of(base);
        let last = cs[cs.len() - 1];
        !(last == '/' || last == sep)
    };
    if needs_sep {
        push_char(&mut out, sep);
    }
    push_str(&mut out, rel);
    out
}

/// The log file's path under the home directory `home`.
pub fn log_file_path(home: &str, sep: char) -> (r: String)
    ensures
        r@ == joined(joined(home@, LOG_DIR@, sep), LOG_FILE@, sep),
{
    let dir = join_path(home, LOG_DIR, sep);
    join_path(dir.as_str(), LOG_FILE, sep)
}

/// The crash flag's path under the home directory `home`.
pub fn crash_flag_path(home: &str, sep: char) -> (r: String)
    ensures
        r@ == joined(home@, CRASH_FLAG@, sep),
{
    join_path(home, CRASH_FLAG, sep)
}

/// Whether a log file of `len` bytes is rolled over before logging starts.
pub fn needs_roll(len: u64) -> (r: bool)
    ensures
        r == (len > MAX_LOG_SIZE),
{
    len > MAX_LOG_SIZE
}

/// One line of the log: `[time] [LEVEL] target - message` and a newline.
pub fn log_line(secs: u64, level: &str, target: &str, message: &str) -> (r: String)
    ensures
        r@ == "["@ + timestamp_text(secs) + "] ["@ + level@ + "] "@ + target@ + " - "@ + message@ + "\n"@,
{
    let mut out = owned("[");
    let ts = format_timestamp(secs);
    push_str(&mut out, ts.as_str());
    push_str(&mut out, "] [");
    push_str(&mut out, level);
    push_str(&mut out, "] ");
    push_str(&mut out, target);
    push_str(&mut out, " - ");
    push_str(&mut out, message);
    push_str(&mut out, "\n");
    out
}

/// The file name of a crash report written at `secs`.
pub fn crash_report_name(secs: u64) -> (r: String)
    ensures
        r@ == "crash-"@ + timestamp_text(secs) + ".txt"@,
{
    let mut out = owned("crash-");
    let ts = format_timestamp(secs);
    push_str(&mut out, ts.as_str());
    push_str(&mut out, ".txt");
    out
}

/// The text of a crash report written at `secs` for a panic at `location`
/// with the message `message`.
pub fn crash_report(secs: u64, location: &str, message: &str) -> (r: String)
    ensures
        r@ == "---- MyIsland Crash Report ----\nTime: "@ + timestamp_text(secs)
            + "\nVersion: 1.0.0\nThread: main\n\n// The crash happened at\nLocation: "@ + location@
            + "\n\n// Reason\n"@ + message@
            + "\n\n// Logs\nSee ~/.myisland/logs/myisland.log for recent activity.\n"@,
{
    let mut out = owned("---- MyIsland Crash Report ----\nTime: ");
    let ts = format_timestamp(secs);
    push_str(&mut out, ts.as_str());
    push_str(&mut out, "\nVersion: 1.0.0\nThread: main\n\n// The crash happened at\nLocation: ");
    push_str(&mut out, location);
    push_str(&mut out, "\n\n// Reason\n");
    push_str(&mut out, message);
    push_str(&mut out, "\n\n// Logs\nSee ~/.myisland/logs/myisland.log for recent activity.\n");
    out
}

} // verus!
