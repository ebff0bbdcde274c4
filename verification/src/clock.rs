//! The time, as text.
use vstd::prelude::*;

verus! {

/// The format of times in the names of backups.
pub const BACKUP_FORMAT: &'static str = "%d-%m-%Y-%H%M%S";

/// The format of times in the names of directories that a restore makes.
pub const RESTORE_FORMAT: &'static str = "%Y%m%d%H%M%S%3f";

/// The format of days in the names of reports.
pub const DAY_FORMAT: &'static str = "%d-%m-%Y";

/// The format of times in reports.
pub const REPORT_FORMAT: &'static str = "%Y-%m-%d %H:%M:%S %z";

/// Whether a text is one of the formats.
pub open spec fn known_format(f: Seq<char>) -> bool {
    f == BACKUP_FORMAT@ || f == RESTORE_FORMAT@ || f == DAY_FORMAT@ || f == REPORT_FORMAT@
}

/// Whether a text is made of digits alone.
pub open spec fn is_digits(s: Seq<char>) -> bool {
    forall|k: int| 0 <= k < s.len() ==> '0' <= #[trigger] s[k] <= '9'
}

/// Whether a text is two digits that write a number between two bounds.
pub open spec fn is_pair(s: Seq<char>, least: int, most: int) -> bool {
    &&& s.len() == 2
    &&& is_digits(s)
    &&& least <= 10 * (s[0] as int - '0' as int) + (s[1] as int - '0' as int) <= most
}

/// Whether a text writes a year: four digits, or, outside of what these reach, a
/// sign and at least four digits.
pub open spec fn is_year(s: Seq<char>) -> bool {
    ||| s.len() == 4 && is_digits(s)
    ||| s.len() >= 5 && (s[0] == '+' || s[0] == '-') && is_digits(s.skip(1))
}

/// Whether a text writes a day: day, month and year, with `-` between them.
pub open spec fn is_day(s: Seq<char>) -> bool {
    &&& s.len() >= 10
    &&& is_pair(s.take(2), 1, 31)
    &&& s[2] == '-'
    &&& is_pair(s.subrange(3, 5), 1, 12)
    &&& s[5] == '-'
    &&& is_year(s.skip(6))
}

/// Whether a text writes a date: year, month and day, with `-` between them.
pub open spec fn is_date(s: Seq<char>) -> bool {
    let n = s.len() as int;
    &&& n >= 10
    &&& is_year(s.take(n - 6))
    &&& s[n - 6] == '-'
    &&& is_pair(s.subrange(n - 5, n - 3), 1, 12)
    &&& s[n - 3] == '-'
    &&& is_pair(s.skip(n - 2), 1, 31)
}

/// Whether a text writes a time of day: hour, minute and second, where a leap
/// second counts as the sixtieth.
pub open spec fn is_hms(s: Seq<char>) -> bool {
    &&& s.len() == 6
    &&& is_pair(s.take(2), 0, 23)
    &&& is_pair(s.subrange(2, 4), 0, 59)
    &&& is_pair(s.skip(4), 0, 60)
}

/// Whether a text writes a time of day with `:` between its parts.
pub open spec fn is_clock(s: Seq<char>) -> bool {
    &&& s.len() == 8
    &&& is_pair(s.take(2), 0, 23)
    &&& s[2] == ':'
    &&& is_pair(s.subrange(3, 5), 0, 59)
    &&& s[5] == ':'
    &&& is_pair(s.skip(6), 0, 60)
}

/// Whether a text is a time as `BACKUP_FORMAT` writes it: a day, `-` and the time
/// of day.
pub open spec fn is_backup_time(s: Seq<char>) -> bool {
    let n = s.len() as int;
    &&& n >= 17
    &&& is_day(s.take(n - 7))
    &&& s[n - 7] == '-'
    &&& is_hms(s.skip(n - 6))
}

/// Whether a text is a time as `RESTORE_FORMAT` writes it: year, month, day, time
/// of day and milliseconds, with nothing between them.
pub open spec fn is_restore_time(s: Seq<char>) -> bool {
    let n = s.len() as int;
    &&& n >= 17
    &&& is_year(s.take(n - 13))
    &&& is_pair(s.subrange(n - 13, n - 11), 1, 12)
    &&& is_pair(s.subrange(n - 11, n - 9), 1, 31)
    &&& is_hms(s.subrange(n - 9, n - 3))
    &&& is_digits(s.skip(n - 3))
}

/// Whether a text is a time as `REPORT_FORMAT` writes it: a date, the time of day
/// and the offset from UTC, a sign with hours and minutes, with spaces between
/// them.
pub open spec fn is_report_time(s: Seq<char>) -> bool {
    let n = s.len() as int;
    &&& n >= 25
    &&& is_date(s.take(n - 15))
    &&& s[n - 15] == ' '
    &&& is_clock(s.subrange(n - 14, n - 6))
    &&& s[n - 6] == ' '
    &&& s[n - 5] == '+' || s[n - 5] == '-'
    &&& is_pair(s.subrange(n - 4, n - 2), 0, 24)
    &&& is_pair(s.skip(n - 2), 0, 59)
}

/// Calls `chrono::Local::now` and writes the time in a format. Claimed: for each
/// of the formats, what the text is made of, part by part. Which time it is, is not stated. The
/// call panics where the machine's clock stands before the year 1970.
#[verifier::external_body]
pub(crate) fn local_time(format: &str) -> (r: String)
    requires
        known_format(format@),
    ensures
        format@ == DAY_FORMAT@ ==> is_day(r@),
        format@ == BACKUP_FORMAT@ ==> is_backup_time(r@),
        format@ == RESTORE_FORMAT@ ==> is_restore_time(r@),
        format@ == REPORT_FORMAT@ ==> is_report_time(r@),
{
    chrono::Local::now().format(format).to_string()
}

/// Whether a text is a fraction of a second: nothing, or a dot and three, six or
/// nine digits.
pub open spec fn is_fraction(s: Seq<char>) -> bool {
    ||| s.len() == 0
    ||| (s.len() == 4 || s.len() == 7 || s.len() == 10) && s[0] == '.' && is_digits(s.skip(1))
}

/// A time in UTC as RFC 3339 writes it.
pub open spec fn utc_stamp(date: Seq<char>, time: Seq<char>, fraction: Seq<char>) -> Seq<char> {
    date + "T"@ + time + fraction + "+00:00"@
}

/// Whether a text is a time in UTC as RFC 3339 writes it: a date, `T`, the time of
/// day, a fraction of a second where there is one, and the offset of UTC.
pub open spec fn is_utc_stamp(s: Seq<char>) -> bool {
    exists|date: Seq<char>, time: Seq<char>, fraction: Seq<char>|
        is_date(date) && is_clock(time) && is_fraction(fraction) && s == #[trigger] utc_stamp(
            date,
            time,
            fraction,
        )
}

/// Calls `chrono::Utc::now` and `chrono::DateTime::to_rfc3339`. Claimed: the text
/// is a date, a `T`, a time of day with or without a fraction of a second, and
/// `+00:00`. Which time it is, is not stated. The call panics where the machine's
/// clock stands before the year 1970.
#[verifier::external_body]
pub(crate) fn utc_time() -> (r: String)
    ensures
        is_utc_stamp(r@),
{
    chrono::Utc::now().to_rfc3339()
}

/// A day and a time of day make the time in the name of a backup, and nothing else
/// does.
pub proof fn law_backup_times(day: Seq<char>, time: Seq<char>, other: Seq<char>)
    requires
        is_day(day),
        is_hms(time),
    ensures
        is_backup_time(day + seq!['-'] + time),
        is_backup_time(other) ==> {
            let n = other.len() as int;
            other == other.take(n - 7) + seq!['-'] + other.skip(n - 6) && is_day(other.take(n - 7))
                && is_hms(other.skip(n - 6))
        },
{
    let s = day + seq!['-'] + time;
    let n = s.len() as int;
    assert(s.take(n - 7) =~= day);
    assert(s.skip(n - 6) =~= time);
    if is_backup_time(other) {
        let m = other.len() as int;
        assert(other =~= other.take(m - 7) + seq!['-'] + other.skip(m - 6));
    }
}

/// A day is written as day, month and year; each has its digits, and the first two
/// their range.
pub proof fn law_days(s: Seq<char>)
    requires
        is_day(s),
    ensures
        s.len() >= 10,
        s[2] == '-',
        s[5] == '-',
        '0' <= s[0] <= '3',
        '0' <= s[1] <= '9',
        '0' <= s[3] <= '1',
        '0' <= s[4] <= '9',
{
    let d = s.take(2);
    let m = s.subrange(3, 5);
    assert(d[0] == s[0] && d[1] == s[1] && m[0] == s[3] && m[1] == s[4]);
    assert('0' <= d[0] <= '9' && '0' <= d[1] <= '9' && '0' <= m[0] <= '9' && '0' <= m[1] <= '9');
}

} // verus!
