//! Snapshots of the log being viewed: which lines a snapshot holds, and the
//! time-stamped name of the snapshot file.
use vstd::prelude::*;
use vstd::string::*;
use crate::text::{
    ascii_lower, contains_text, is_ascii_text, lowercase_text, string_from_chars, text_contains,
    to_lowercase, zero_padded, zero_padded_chars,
};

verus! {

broadcast use vstd::string::group_string_axioms;

// ---------------------------------------------------------------------------
// The calendar
// ---------------------------------------------------------------------------

/// Gregorian leap years.
pub open spec fn leap_year(y: int) -> bool {
    (y % 4 == 0 && y % 100 != 0) || y % 400 == 0
}

/// The number of days in year `y`.
pub open spec fn year_days(y: int) -> nat {
    if leap_year(y) {
        366
    } else {
        365
    }
}

/// The number of days from 1970-01-01 to the first day of year `y`.
pub open spec fn days_before_year(y: int) -> nat
    decreases y - 1970,
{
    if y <= 1970 {
        0
    } else {
        days_before_year(y - 1) + year_days(y - 1)
    }
}

/// The number of days in month `m` (1 to 12) of year `y`.
pub open spec fn month_days(y: int, m: int) -> nat {
    if m == 2 {
        if leap_year(y) {
            29
        } else {
            28
        }
    } else if m == 4 || m == 6 || m == 9 || m == 11 {
        30
    } else {
        31
    }
}

/// The number of days in year `y` before the first day of month `m`.
pub open spec fn days_before_month(y: int, m: int) -> nat
    decreases m,
{
    if m <= 1 {
        0
    } else {
        days_before_month(y, m - 1) + month_days(y, m - 1)
    }
}

/// `(year, month, day)` is the calendar date `days` days after 1970-01-01.
pub open spec fn is_date_of_day(days: nat, year: int, month: int, day: int) -> bool {
    &&& 1970 <= year
    &&& 1 <= month <= 12
    &&& 1 <= day <= month_days(year, month)
    &&& days_before_year(year) + days_before_month(year, month) + day - 1 == days
}

/// The day number that a time stamp falls on, as the conversion computes
/// it: whole days since the epoch, kept to 32 bits.
pub open spec fn epoch_day(secs: u64) -> nat {
    ((secs / 86400) as u32) as nat
}

proof fn lemma_days_before_year_grows(y: int)
    requires
        y >= 1970,
    ensures
        days_before_year(y) >= 365 * (y - 1970),
        days_before_year(y + 1) == days_before_year(y) + year_days(y),
    decreases y - 1970,
{
    if y > 1970 {
        lemma_days_before_year_grows(y - 1);
    }
}

proof fn lemma_days_before_year_monotone(a: int, b: int)
    requires
        1970 <= a <= b,
    ensures
        days_before_year(a) + (if a < b {
            year_days(a) as int
        } else {
            0
        }) <= days_before_year(b),
    decreases b - a,
{
    if a < b {
        lemma_days_before_year_monotone(a, b - 1);
        lemma_days_before_year_grows(b - 1);
    }
}

proof fn lemma_days_before_month_monotone(y: int, a: int, b: int)
    requires
        1 <= a <= b,
    ensures
        days_before_month(y, a) + (if a < b {
            month_days(y, a) as int
        } else {
            0
        }) <= days_before_month(y, b),
    decreases b - a,
{
    if a < b {
        lemma_days_before_month_monotone(y, a, b - 1);
    }
}

proof fn lemma_months_fill_year(y: int)
    ensures
        days_before_month(y, 13) == year_days(y),
{
    reveal_with_fuel(days_before_month, 13);
}

/// The calendar date of a day is unique: the conversion's contract pins
/// down a single year, month and day.
pub proof fn lemma_date_of_day_unique(days: nat, y1: int, m1: int, d1: int, y2: int, m2: int, d2: int)
    requires
        is_date_of_day(days, y1, m1, d1),
        is_date_of_day(days, y2, m2, d2),
    ensures
        y1 == y2 && m1 == m2 && d1 == d2,
{
    lemma_months_fill_year(y1);
    lemma_months_fill_year(y2);
    lemma_days_before_month_monotone(y1, m1, 13);
    lemma_days_before_month_monotone(y2, m2, 13);
    if y1 < y2 {
        lemma_days_before_year_monotone(y1, y2);
    } else if y2 < y1 {
        lemma_days_before_year_monotone(y2, y1);
    }
    assert(y1 == y2);
    if m1 < m2 {
        lemma_days_before_month_monotone(y1, m1, m2);
    } else if m2 < m1 {
        lemma_days_before_month_monotone(y1, m2, m1);
    }
}

/// `r` is `(year, month, day, hour, minute, second)` of Unix seconds `secs`
/// in UTC, with the day count kept to 32 bits (see `secs_to_datetime`).
pub open spec fn is_datetime_of(secs: u64, r: (u32, u32, u32, u32, u32, u32)) -> bool {
    &&& r.5 == secs % 60
    &&& r.4 == (secs / 60) % 60
    &&& r.3 == (secs / 3600) % 24
    &&& is_date_of_day(epoch_day(secs), r.0 as int, r.1 as int, r.2 as int)
}

/// `a` comes no later than `b`, comparing year, month, day, hour, minute and
/// second in turn.
pub open spec fn datetime_le(a: (u32, u32, u32, u32, u32, u32), b: (u32, u32, u32, u32, u32, u32)) -> bool {
    if a.0 != b.0 {
        a.0 < b.0
    } else if a.1 != b.1 {
        a.1 < b.1
    } else if a.2 != b.2 {
        a.2 < b.2
    } else if a.3 != b.3 {
        a.3 < b.3
    } else if a.4 != b.4 {
        a.4 < b.4
    } else {
        a.5 <= b.5
    }
}

/// The day number of a calendar date.
spec fn day_number(y: int, m: int, d: int) -> int {
    days_before_year(y) + days_before_month(y, m) + d - 1
}

proof fn lemma_day_number_increases(y1: int, m1: int, d1: int, y2: int, m2: int, d2: int)
    requires
        is_date_of_day(day_number(y1, m1, d1) as nat, y1, m1, d1),
        is_date_of_day(day_number(y2, m2, d2) as nat, y2, m2, d2),
        y1 < y2 || (y1 == y2 && m1 < m2) || (y1 == y2 && m1 == m2 && d1 < d2),
    ensures
        day_number(y1, m1, d1) < day_number(y2, m2, d2),
{
    lemma_months_fill_year(y1);
    lemma_days_before_month_monotone(y1, m1, 13);
    if y1 < y2 {
        lemma_days_before_year_monotone(y1, y2);
    } else if m1 < m2 {
        lemma_days_before_month_monotone(y1, m1, m2);
    }
}

proof fn lemma_time_of_day(x: u64)
    ensures
        ((x / 3600) % 24) * 3600 + ((x / 60) % 60) * 60 + x % 60 == x % 86400,
{
    let q = x / 86400;
    let r = x % 86400;
    assert(x == 86400 * q + r);
    assert(x / 60 == 1440 * q + r / 60);
    assert(x / 3600 == 24 * q + r / 3600);
    assert((x / 3600) % 24 == r / 3600);
    assert((x / 60) % 60 == (r / 60) % 60);
    assert(x % 60 == r % 60);
    let u = r / 60;
    assert(r == 60 * u + r % 60);
    assert(u == 60 * (u / 60) + u % 60);
    assert(u / 60 == r / 3600);
}

/// Later Unix seconds never give an earlier date and time, and different
/// seconds give different ones (while the day count fits in 32 bits).
pub proof fn lemma_datetime_order(
    a: u64,
    b: u64,
    ra: (u32, u32, u32, u32, u32, u32),
    rb: (u32, u32, u32, u32, u32, u32),
)
    requires
        a <= b,
        b / 86400 <= u32::MAX,
        is_datetime_of(a, ra),
        is_datetime_of(b, rb),
    ensures
        datetime_le(ra, rb),
        ra == rb ==> a == b,
{
    let da = a / 86400;
    let db = b / 86400;
    assert(da <= db);
    assert(epoch_day(a) == da);
    assert(epoch_day(b) == db);
    lemma_time_of_day(a);
    lemma_time_of_day(b);
    if da < db {
        if !(ra.0 < rb.0 || (ra.0 == rb.0 && ra.1 < rb.1) || (ra.0 == rb.0 && ra.1 == rb.1 && ra.2
            < rb.2)) {
            if ra.0 == rb.0 && ra.1 == rb.1 && ra.2 == rb.2 {
                assert(false);
            } else {
                lemma_day_number_increases(
                    rb.0 as int,
                    rb.1 as int,
                    rb.2 as int,
                    ra.0 as int,
                    ra.1 as int,
                    ra.2 as int,
                );
            }
        }
    } else {
        lemma_date_of_day_unique(
            da as nat,
            ra.0 as int,
            ra.1 as int,
            ra.2 as int,
            rb.0 as int,
            rb.1 as int,
            rb.2 as int,
        );
        assert(a == 86400 * da + a % 86400);
        assert(b == 86400 * db + b % 86400);
    }
}

/// Whether `year` is a leap year.
pub fn is_leap(year: u32) -> (r: bool)
    ensures
        r == leap_year(year as int),
{
    (year % 4 == 0 && year % 100 != 0) || year % 400 == 0
}

fn days_in_month(year: u32, month: u32) -> (r: u32)
    ensures
        r == month_days(year as int, month as int),
{
    if month == 2 {
        if is_leap(year) {
            29
        } else {
            28
        }
    } else if month == 4 || month == 6 || month == 9 || month == 11 {
        30
    } else {
        31
    }
}

/// Splits Unix seconds into `(year, month, day, hour, minute, second)` in UTC.
/// The whole days since the epoch are truncated to 32 bits before the date
/// is worked out.
pub fn secs_to_datetime(secs: u64) -> (r: (u32, u32, u32, u32, u32, u32))
    ensures
        r.5 == secs % 60,
        r.4 == (secs / 60) % 60,
        r.3 == (secs / 3600) % 24,
        is_date_of_day(epoch_day(secs), r.0 as int, r.1 as int, r.2 as int),
{
    let sec = (secs % 60) as u32;
    let mins = secs / 60;
    let min = (mins % 60) as u32;
    let hours = mins / 60;
    let hour = (hours % 24) as u32;
    let days = (hours / 24) as u32;
    assert(hours / 24 == secs / 86400) by (nonlinear_arith)
        requires
            mins == secs / 60,
            hours == mins / 60,
    ;
    assert(hours == secs / 3600) by (nonlinear_arith)
        requires
            mins == secs / 60,
            hours == mins / 60,
    ;
    let mut year: u32 = 1970;
    let mut remaining: u32 = days;
    loop
        invariant
            1970 <= year,
            remaining as int + days_before_year(year as int) == days as int,
            days_before_year(year as int) >= 365 * (year - 1970),
        ensures
            remaining as int + days_before_year(year as int) == days as int,
            remaining < year_days(year as int),
            1970 <= year,
        decreases remaining,
    {
        let days_in_year: u32 = if is_leap(year) {
            366
        } else {
            365
        };
        if remaining < days_in_year {
            break;
        }
        proof {
            lemma_days_before_year_grows(year as int);
        }
        remaining = remaining - days_in_year;
        year = year + 1;
    }
    let ghost year_rest = remaining;
    let mut month: u32 = 1;
    proof {
        lemma_months_fill_year(year as int);
    }
    while month <= 12
        invariant
            1 <= month <= 13,
            remaining as int + days_before_month(year as int, month as int) == year_rest as int,
            year_rest < year_days(year as int),
            days_before_month(year as int, 13) == year_days(year as int),
        ensures
            month <= 12,
            remaining < month_days(year as int, month as int),
            remaining as int + days_before_month(year as int, month as int) == year_rest as int,
        decreases 13 - month,
    {
        let md = days_in_month(year, month);
        if remaining < md {
            break;
        }
        remaining = remaining - md;
        month = month + 1;
        proof {
            if month == 13 {
                assert(false);
            }
        }
    }
    let day = remaining + 1;
    (year, month, day, hour, min, sec)
}

// ---------------------------------------------------------------------------
// Time stamps and file names
// ---------------------------------------------------------------------------

/// The `YYYY-MM-DD_HH-MM-SS` text for a calendar date and time of day.
pub open spec fn datetime_text(y: nat, mo: nat, d: nat, h: nat, mi: nat, s: nat) -> Seq<char> {
    zero_padded(y, 4) + seq!['-'] + zero_padded(mo, 2) + seq!['-'] + zero_padded(d, 2) + seq!['_']
        + zero_padded(h, 2) + seq!['-'] + zero_padded(mi, 2) + seq!['-'] + zero_padded(s, 2)
}

/// The `YYYY-MM-DD_HH-MM-SS` text (UTC) for Unix seconds `secs`.
pub open spec fn timestamp_text(secs: u64) -> Seq<char> {
    let (y, mo, d) = choose|y: int, mo: int, d: int| is_date_of_day(epoch_day(secs), y, mo, d);
    datetime_text(
        y as nat,
        mo as nat,
        d as nat,
        ((secs / 3600) % 24) as nat,
        ((secs / 60) % 60) as nat,
        (secs % 60) as nat,
    )
}

/// Formats Unix seconds as `YYYY-MM-DD_HH-MM-SS` (UTC).
pub fn format_timestamp(secs: u64) -> (r: String)
    ensures
        r@ == timestamp_text(secs),
{
    let (year, month, day, hour, min, sec) = secs_to_datetime(secs);
    proof {
        let (y, mo, d) = choose|y: int, mo: int, d: int|
            is_date_of_day(epoch_day(secs), y, mo, d);
        lemma_date_of_day_unique(
            epoch_day(secs),
            y,
            mo,
            d,
            year as int,
            month as int,
            day as int,
        );
    }
    let mut v = zero_padded_chars(year as u64, 4);
    v.push('-');
    let mut p = zero_padded_chars(month as u64, 2);
    v.append(&mut p);
    v.push('-');
    let mut p = zero_padded_chars(day as u64, 2);
    v.append(&mut p);
    v.push('_');
    let mut p = zero_padded_chars(hour as u64, 2);
    v.append(&mut p);
    v.push('-');
    let mut p = zero_padded_chars(min as u64, 2);
    v.append(&mut p);
    v.push('-');
    let mut p = zero_padded_chars(sec as u64, 2);
    v.append(&mut p);
    proof {
        assert(v@ =~= datetime_text(
            year as nat,
            month as nat,
            day as nat,
            hour as nat,
            min as nat,
            sec as nat,
        ));
    }
    string_from_chars(v.as_slice())
}

/// A reading of the system clock (`std::time::SystemTime`).
#[verifier::external_type_specification]
#[verifier::external_body]
pub struct ExSystemTime(std::time::SystemTime);

/// `SystemTime::now`. The reading depends on the clock, so nothing is
/// claimed of it.
#[verifier::external_body]
fn clock_now() -> std::time::SystemTime {
    std::time::SystemTime::now()
}

/// `SystemTime::duration_since(UNIX_EPOCH)`: the time elapsed since the
/// epoch, or `None` when the reading is earlier. Nothing is claimed of the
/// reading it measures.
#[verifier::external_body]
fn since_epoch(t: &std::time::SystemTime) -> Option<std::time::Duration> {
    t.duration_since(std::time::UNIX_EPOCH).ok()
}

/// `Duration::as_secs`: the whole seconds of a duration. Nothing is claimed
/// of the duration it reads.
#[verifier::external_body]
fn whole_secs(d: &std::time::Duration) -> u64 {
    d.as_secs()
}

/// The clock's reading in whole seconds since the Unix epoch; zero when the
/// clock reads earlier than the epoch.
fn unix_time_secs() -> u64 {
    let now = clock_now();
    match since_epoch(&now) {
        Some(d) => whole_secs(&d),
        None => 0,
    }
}

/// The current time (UTC) as `YYYY-MM-DD_HH-MM-SS`.
pub fn timestamp_str() -> (r: String)
    ensures
        exists|secs: u64| r@ == timestamp_text(secs),
{
    let secs = unix_time_secs();
    format_timestamp(secs)
}

/// The name of a snapshot file taken at time stamp text `stamp`.
pub open spec fn snapshot_name_text(stamp: Seq<char>) -> Seq<char> {
    "logia-snapshot-"@ + stamp + ".log"@
}

/// The file name of a snapshot taken at Unix seconds `secs`:
/// `logia-snapshot-YYYY-MM-DD_HH-MM-SS.log`.
pub fn snapshot_file_name(secs: u64) -> (r: String)
    ensures
        r@ == snapshot_name_text(timestamp_text(secs)),
{
    let stamp = format_timestamp(secs);
    let mut r = String::from_str("logia-snapshot-");
    r.append(stamp.as_str());
    r.append(".log");
    r
}

// ---------------------------------------------------------------------------
// Which lines a snapshot holds
// ---------------------------------------------------------------------------

/// A line is kept under `query` when the query is empty or the line's
/// lower-case form contains the query's lower-case form.
pub open spec fn line_matches(line: Seq<char>, query: Seq<char>) -> bool {
    query.len() == 0 || contains_text(lowercase_text(line), lowercase_text(query))
}

/// The views of a list of strings.
pub open spec fn texts(v: Seq<String>) -> Seq<Seq<char>> {
    v.map_values(|l: String| l@)
}

/// The lines of `lines` that match `query`, in order.
pub open spec fn matching_lines(lines: Seq<Seq<char>>, query: Seq<char>) -> Seq<Seq<char>> {
    lines.filter(|l: Seq<char>| line_matches(l, query))
}

/// With an empty query every line is kept; otherwise every kept line
/// contains the query, ignoring case, and the kept lines are lines of the
/// log in their order.
pub proof fn lemma_matching_lines(lines: Seq<Seq<char>>, query: Seq<char>)
    ensures
        query.len() == 0 ==> matching_lines(lines, query) == lines,
        forall|i: int|
            0 <= i < matching_lines(lines, query).len() ==> line_matches(
                #[trigger] matching_lines(lines, query)[i],
                query,
            ) && lines.contains(matching_lines(lines, query)[i]),
        matching_lines(lines, query).len() <= lines.len(),
    decreases lines.len(),
{
    let pred = |l: Seq<char>| line_matches(l, query);
    broadcast use vstd::seq_lib::group_filter_ensures;
    assert forall|i: int| 0 <= i < matching_lines(lines, query).len() implies lines.contains(
        #[trigger] matching_lines(lines, query)[i],
    ) by {
        let f = lines.filter(pred);
        assert(f.contains(f[i]));
        lines.lemma_filter_contains_rev(pred, f[i]);
    }
    if query.len() == 0 && lines.len() > 0 {
        lemma_matching_lines(lines.drop_last(), query);
        lines.drop_last().lemma_filter_push(lines.last(), pred);
        assert(lines =~= lines.drop_last().push(lines.last()));
    } else if query.len() == 0 {
        assert(lines.filter(pred) =~= lines);
    }
}

/// For ASCII texts, whether `line` is kept under `query`: the query is
/// empty, or the line with `A`-`Z` lowered contains the query so lowered.
pub open spec fn ascii_line_matches(line: Seq<char>, query: Seq<char>) -> bool {
    query.len() == 0 || contains_text(
        line.map_values(|c: char| ascii_lower(c)),
        query.map_values(|c: char| ascii_lower(c)),
    )
}

/// The lines that a snapshot (or the log view) shows under `query`:
/// all of them when the query is empty, else those whose lower-case form
/// contains the lower-case query. For an ASCII query and ASCII lines this
/// is the comparison with `A`-`Z` lowered.
pub fn filter_lines(lines: &Vec<String>, query: &str) -> (r: Vec<String>)
    ensures
        texts(r@) == matching_lines(texts(lines@), query@),
        is_ascii_text(query@) && (forall|i: int| 0 <= i < lines@.len() ==> is_ascii_text(
            #[trigger] lines@[i]@,
        )) ==> texts(r@) == texts(lines@).filter(|l: Seq<char>| ascii_line_matches(l, query@)),
{
    let empty = query.is_empty();
    let q = to_lowercase(query);
    let mut r: Vec<String> = Vec::new();
    let ghost pred = |l: Seq<char>| line_matches(l, query@);
    let ghost apred = |l: Seq<char>| ascii_line_matches(l, query@);
    let ghost asc = is_ascii_text(query@) && (forall|i: int| 0 <= i < lines@.len() ==> is_ascii_text(
        #[trigger] lines@[i]@,
    ));
    for i in 0..lines.len()
        invariant
            q@ == lowercase_text(query@),
            is_ascii_text(query@) ==> q@ == query@.map_values(|c: char| ascii_lower(c)),
            empty == (query@.len() == 0),
            pred == (|l: Seq<char>| line_matches(l, query@)),
            apred == (|l: Seq<char>| ascii_line_matches(l, query@)),
            asc == (is_ascii_text(query@) && (forall|i: int| 0 <= i < lines@.len() ==> is_ascii_text(
                #[trigger] lines@[i]@,
            ))),
            texts(r@) == texts(lines@).take(i as int).filter(pred),
            asc ==> texts(r@) == texts(lines@).take(i as int).filter(apred),
    {
        let keep = if empty {
            true
        } else {
            let l = to_lowercase(lines[i].as_str());
            let k = text_contains(l.as_str(), q.as_str());
            proof {
                if asc {
                    assert(is_ascii_text(lines@[i as int]@));
                    assert(k == apred(lines@[i as int]@));
                }
            }
            k
        };
        proof {
            let t = texts(lines@);
            assert(t[i as int] == lines@[i as int]@);
            assert(t.take(i + 1) =~= t.take(i as int).push(t[i as int]));
            t.take(i as int).lemma_filter_push(t[i as int], pred);
            t.take(i as int).lemma_filter_push(t[i as int], apred);
        }
        if keep {
            let ghost old_r = r@;
            r.push(lines[i].clone());
            proof {
                assert(texts(r@) =~= texts(old_r).push(lines@[i as int]@));
            }
        }
    }
    proof {
        assert(texts(lines@).take(lines.len() as int) =~= texts(lines@));
    }
    r
}

/// What a snapshot of `lines` under `query` taken now consists of: the
/// file's name, stamped with the current time, and the lines it holds (those
/// matching the query, in order). Writing them out is left to the caller.
pub fn snapshot(lines: &Vec<String>, query: &str) -> (r: (String, Vec<String>))
    ensures
        exists|secs: u64| r.0@ == snapshot_name_text(#[trigger] timestamp_text(secs)),
        texts(r.1@) == matching_lines(texts(lines@), query@),
{
    let secs = unix_time_secs();
    let name = snapshot_file_name(secs);
    let kept = filter_lines(lines, query);
    (name, kept)
}

} // verus!
