//! The desktop's log files: one file per calendar day named after the
//! date, only the current day and the two preceding days kept, and lines
//! that may carry a secret replaced before they are written.
use vstd::prelude::*;

use chrono::Datelike;

use crate::text::{
    ascii_lowercase, chars_of, contains_chars, decimal, lowercase_ascii, occurs_in, str_eq,
    string_of_range,
};

verus! {

broadcast use vstd::string::group_string_axioms;

/// A calendar day.
#[derive(Clone, Copy, Debug, PartialEq, Eq, Structural)]
pub struct LogDate {
    pub year: i32,
    pub month: u32,
    pub day: u32,
}

/// The first year a date can have.
pub const MIN_YEAR: i32 = -262_143;

/// The last year a date can have.
pub const MAX_YEAR: i32 = 262_142;

/// A leap year of the proleptic Gregorian calendar.
pub open spec fn leap_year(y: int) -> bool {
    y % 4 == 0 && (y % 100 != 0 || y % 400 == 0)
}

/// The number of days of a month.
pub open spec fn days_in_month(y: int, m: int) -> int {
    if m == 2 {
        if leap_year(y) {
            29
        } else {
            28
        }
    } else if m == 4 || m == 6 || m == 9 || m == 11 {
        30
    } else {
        31
    }
}

/// A day of the proleptic Gregorian calendar within the years dates cover.
pub open spec fn valid_date(d: LogDate) -> bool {
    &&& MIN_YEAR <= d.year <= MAX_YEAR
    &&& 1 <= d.month <= 12
    &&& 1 <= d.day <= days_in_month(d.year as int, d.month as int)
}

/// Chronological order of days.
pub open spec fn date_before(a: LogDate, b: LogDate) -> bool {
    ||| a.year < b.year
    ||| a.year == b.year && a.month < b.month
    ||| a.year == b.year && a.month == b.month && a.day < b.day
}

/// `n` in decimal, zero-padded to `width` digits.
pub open spec fn padded(n: nat, width: nat) -> Seq<char>
    decreases width,
{
    if decimal(n).len() >= width || width == 0 {
        decimal(n)
    } else {
        seq!['0'] + padded(n, (width - 1) as nat)
    }
}

/// A year as `%Y` writes it: four digits from 0 to 9999; other years with
/// a sign and at least four digits.
pub open spec fn year_text(y: int) -> Seq<char> {
    if 0 <= y <= 9999 {
        padded(y as nat, 4)
    } else if y < 0 {
        seq!['-'] + padded((-y) as nat, 4)
    } else {
        seq!['+'] + padded(y as nat, 4)
    }
}

/// `YYYY-MM-DD`, the year as `%Y` writes it.
pub open spec fn ymd_text(d: LogDate) -> Seq<char> {
    year_text(d.year as int) + "-"@ + padded(d.month as nat, 2) + "-"@ + padded(d.day as nat, 2)
}

/// The date that `NaiveDate::parse_from_str` reads from `text` with the
/// format `%Y-%m-%d`, as (year, month, day).
pub uninterp spec fn chrono_parse_ymd(text: Seq<char>) -> Option<(i32, u32, u32)>;

/// The date `n` days before a date, as `NaiveDate::checked_sub_days`
/// computes it (none before the first representable date).
pub uninterp spec fn chrono_days_before(year: i32, month: u32, day: u32, n: u64) -> Option<
    (i32, u32, u32),
>;

/// `NaiveDate::format(date, "%Y-%m-%d")`: the year in four digits (with a
/// sign, and more digits where needed, outside 0 to 9999), then month and
/// day in two, separated by dashes.
#[verifier::external_body]
fn format_ymd(date: LogDate) -> (r: String)
    requires
        valid_date(date),
    ensures
        r@ == ymd_text(date),
{
    match chrono::NaiveDate::from_ymd_opt(date.year, date.month, date.day) {
        Some(d) => d.format("%Y-%m-%d").to_string(),
        None => String::new(),
    }
}

/// `NaiveDate::parse_from_str(text, "%Y-%m-%d")`, as named by
/// `chrono_parse_ymd`; what it reads is a valid date, and the text
/// `YYYY-MM-DD` of a valid date with a year from 0 to 9999 reads as that
/// date.
#[verifier::external_body]
fn parse_ymd(text: &str) -> (r: Option<LogDate>)
    ensures
        match r {
            Some(d) => chrono_parse_ymd(text@) == Some((d.year, d.month, d.day)) && valid_date(d),
            None => chrono_parse_ymd(text@) is None,
        },
        forall|d: LogDate|
            valid_date(d) && 0 <= d.year <= 9999 && text@ == ymd_text(d) ==> r == Some(d),
{
    match chrono::NaiveDate::parse_from_str(text, "%Y-%m-%d") {
        Ok(d) => Some(LogDate { year: d.year(), month: d.month(), day: d.day() }),
        Err(_) => None,
    }
}

/// `NaiveDate::checked_sub_days(date, Days::new(n))`, as named by
/// `chrono_days_before`; the result is a valid date no later than `date`.
#[verifier::external_body]
fn sub_days(date: LogDate, n: u64) -> (r: Option<LogDate>)
    requires
        valid_date(date),
    ensures
        match r {
            Some(d) => chrono_days_before(date.year, date.month, date.day, n) == Some(
                (d.year, d.month, d.day),
            ) && valid_date(d) && !date_before(date, d),
            None => chrono_days_before(date.year, date.month, date.day, n) is None,
        },
{
    match chrono::NaiveDate::from_ymd_opt(date.year, date.month, date.day) {
        Some(d) => match d.checked_sub_days(chrono::Days::new(n)) {
            Some(x) => Some(LogDate { year: x.year(), month: x.month(), day: x.day() }),
            None => None,
        },
        None => None,
    }
}

/// The name of the log file of a day: `dsh-desktop-YYYY-MM-DD.log`.
pub fn log_file_name(day: LogDate) -> (r: String)
    requires
        valid_date(day),
    ensures
        r@ == "dsh-desktop-"@ + ymd_text(day) + ".log"@,
{
    let mut name = "dsh-desktop-".to_string();
    let date = format_ymd(day);
    crate::text::append_str(&mut name, date.as_str());
    crate::text::append_str(&mut name, ".log");
    name
}

/// The text between the prefix and the suffix of a log file name.
pub open spec fn log_name_date(name: Seq<char>) -> Option<Seq<char>> {
    let p = "dsh-desktop-"@;
    let s = ".log"@;
    if name.len() >= p.len() + s.len() && name.take(p.len() as int) == p && name.skip(
        name.len() - s.len(),
    ) == s {
        Some(name.subrange(p.len() as int, name.len() - s.len()))
    } else {
        None
    }
}

/// The day of a log file of this desktop, from its name; `None` for any
/// other file.
pub fn parse_log_date(name: &str) -> (r: Option<LogDate>)
    ensures
        match log_name_date(name@) {
            Some(text) => match r {
                Some(d) => chrono_parse_ymd(text) == Some((d.year, d.month, d.day)) && valid_date(d),
                None => chrono_parse_ymd(text) is None,
            },
            None => r is None,
        },
        forall|d: LogDate|
            valid_date(d) && 0 <= d.year <= 9999 && name@ == "dsh-desktop-"@ + ymd_text(d)
                + ".log"@ ==> r == Some(d),
{
    let cs = chars_of(name);
    proof {
        reveal_strlit("dsh-desktop-");
        reveal_strlit(".log");
    }
    if cs.len() < 16 {
        return None;
    }
    let prefix = string_of_range(&cs, 0, 12);
    let suffix = string_of_range(&cs, cs.len() - 4, cs.len());
    if !str_eq(prefix.as_str(), "dsh-desktop-") || !str_eq(suffix.as_str(), ".log") {
        proof {
            assert(cs@.subrange(0, 12) =~= cs@.take(12));
            assert(cs@.subrange(cs@.len() - 4, cs@.len() as int) =~= cs@.skip(cs@.len() - 4));
            assert forall|d: LogDate|
                valid_date(d) && 0 <= d.year <= 9999 && name@ == "dsh-desktop-"@ + ymd_text(d)
                    + ".log"@ implies false by {
                let whole = "dsh-desktop-"@ + ymd_text(d) + ".log"@;
                assert(whole.subrange(0, 12) =~= "dsh-desktop-"@);
                assert(whole.subrange(whole.len() - 4, whole.len() as int) =~= ".log"@);
            }
        }
        return None;
    }
    let middle = string_of_range(&cs, 12, cs.len() - 4);
    proof {
        assert(cs@.subrange(0, 12) =~= cs@.take(12));
        assert(cs@.subrange(cs@.len() - 4, cs@.len() as int) =~= cs@.skip(cs@.len() - 4));
        assert forall|d: LogDate|
            valid_date(d) && 0 <= d.year <= 9999 && name@ == "dsh-desktop-"@ + ymd_text(d)
                + ".log"@ implies middle@ == ymd_text(d) by {
            assert(middle@ =~= ("dsh-desktop-"@ + ymd_text(d) + ".log"@).subrange(12, name@.len() - 4));
            assert(("dsh-desktop-"@ + ymd_text(d) + ".log"@).subrange(12, name@.len() - 4) =~= ymd_text(d));
        }
    }
    parse_ymd(middle.as_str())
}

/// The markers of a log line that may carry a credential.
pub open spec fn sensitive_marker(m: Seq<char>) -> bool {
    ||| m == "authorization:"@
    ||| m == "access_token"@
    ||| m == "refresh_token"@
    ||| m == "id_token"@
    ||| m == "api_key"@
    ||| m == "apikey"@
}

/// Whether a line mentions one of the markers, ignoring ASCII case.
pub open spec fn sensitive_line(message: Seq<char>) -> bool {
    exists|m: Seq<char>| sensitive_marker(m) && #[trigger] occurs_in(m, ascii_lowercase(message))
}

/// A line is redacted exactly when its ASCII-lowercased text contains one
/// of the six credential markers: `authorization:`, `access_token`,
/// `refresh_token`, `id_token`, `api_key` or `apikey`.
pub proof fn law_redaction_markers(message: Seq<char>)
    ensures
        sensitive_line(message) <==> {
            let lower = ascii_lowercase(message);
            ||| occurs_in("authorization:"@, lower)
            ||| occurs_in("access_token"@, lower)
            ||| occurs_in("refresh_token"@, lower)
            ||| occurs_in("id_token"@, lower)
            ||| occurs_in("api_key"@, lower)
            ||| occurs_in("apikey"@, lower)
        },
{
    let lower = ascii_lowercase(message);
    if sensitive_line(message) {
        let m = choose|m: Seq<char>| sensitive_marker(m) && #[trigger] occurs_in(m, lower);
        assert(occurs_in(m, lower));
    }
    if occurs_in("authorization:"@, lower) {
        assert(sensitive_marker("authorization:"@));
    }
    if occurs_in("access_token"@, lower) {
        assert(sensitive_marker("access_token"@));
    }
    if occurs_in("refresh_token"@, lower) {
        assert(sensitive_marker("refresh_token"@));
    }
    if occurs_in("id_token"@, lower) {
        assert(sensitive_marker("id_token"@));
    }
    if occurs_in("api_key"@, lower) {
        assert(sensitive_marker("api_key"@));
    }
    if occurs_in("apikey"@, lower) {
        assert(sensitive_marker("apikey"@));
    }
}

/// The line written for a message: the message, or a notice when it may
/// carry a credential.
pub fn redact(message: &str) -> (r: &str)
    ensures
        r@ == (if sensitive_line(message@) {
            "[redacted potentially sensitive log line]"@
        } else {
            message@
        }),
{
    let lower = lowercase_ascii(&chars_of(message));
    let markers = ["authorization:", "access_token", "refresh_token", "id_token", "api_key", "apikey"];
    let mut i: usize = 0;
    while i < 6
        invariant
            i <= 6,
            lower@ == ascii_lowercase(message@),
            markers@ == seq!["authorization:", "access_token", "refresh_token", "id_token", "api_key", "apikey"],
            forall|j: int| 0 <= j < i ==> !occurs_in(markers@[j]@, lower@),
        decreases 6 - i,
    {
        if contains_chars(&lower, &chars_of(markers[i])) {
            assert(sensitive_marker(markers@[i as int]@));
            return "[redacted potentially sensitive log line]";
        }
        i = i + 1;
    }
    proof {
        assert forall|m: Seq<char>| sensitive_marker(m) implies !#[trigger] occurs_in(m, ascii_lowercase(message@)) by {
            if m == "authorization:"@ {
                assert(markers@[0]@ == m);
            } else if m == "access_token"@ {
                assert(markers@[1]@ == m);
            } else if m == "refresh_token"@ {
                assert(markers@[2]@ == m);
            } else if m == "id_token"@ {
                assert(markers@[3]@ == m);
            } else if m == "api_key"@ {
                assert(markers@[4]@ == m);
            } else {
                assert(markers@[5]@ == m);
            }
        }
    }
    message
}

/// The first day whose log is kept: two days before today, or the first
/// representable day when there is none.
pub open spec fn retention_cutoff(today: LogDate) -> LogDate {
    match chrono_days_before(today.year, today.month, today.day, 2) {
        Some((y, m, d)) => LogDate { year: y, month: m, day: d },
        None => LogDate { year: MIN_YEAR, month: 1, day: 1 },
    }
}

/// Whether a directory entry is a log file of this desktop older than the
/// retention window (the current day and the two before it), and so is
/// removed.
pub fn expired_log(name: &str, is_file: bool, today: LogDate) -> (r: bool)
    requires
        valid_date(today),
    ensures
        r == (is_file && log_name_date(name@) is Some && chrono_parse_ymd(
            log_name_date(name@)->0,
        ) is Some && ({
            let (y, m, d) = chrono_parse_ymd(log_name_date(name@)->0)->0;
            date_before(LogDate { year: y, month: m, day: d }, retention_cutoff(today))
        })),
        0 <= today.year <= 9999 && name@ == "dsh-desktop-"@ + ymd_text(today) + ".log"@ ==> !r,
{
    if !is_file {
        return false;
    }
    let day = match parse_log_date(name) {
        Some(d) => d,
        None => return false,
    };
    let cutoff = match sub_days(today, 2) {
        Some(c) => c,
        None => LogDate { year: MIN_YEAR, month: 1, day: 1 },
    };
    day.year < cutoff.year || (day.year == cutoff.year && day.month < cutoff.month) || (day.year
        == cutoff.year && day.month == cutoff.month && day.day < cutoff.day)
}

/// The text of a log line after its timestamp: level, scope and the
/// message (redacted when it may carry a credential).
pub open spec fn log_entry(level: Seq<char>, scope: Seq<char>, message: Seq<char>) -> Seq<char> {
    "["@ + level + "] ["@ + scope + "] "@ + (if sensitive_line(message) {
        "[redacted potentially sensitive log line]"@
    } else {
        message
    })
}

/// Writes the text of a log line after its timestamp.
fn entry(level: &str, scope: &str, message: &str) -> (r: String)
    ensures
        r@ == log_entry(level@, scope@, message@),
{
    let mut line = "[".to_string();
    crate::text::append_str(&mut line, level);
    crate::text::append_str(&mut line, "] [");
    crate::text::append_str(&mut line, scope);
    crate::text::append_str(&mut line, "] ");
    crate::text::append_str(&mut line, redact(message));
    line
}

/// An informational log line (after its timestamp).
pub fn info(scope: &str, message: &str) -> (r: String)
    ensures
        r@ == log_entry("INFO"@, scope@, message@),
{
    entry("INFO", scope, message)
}

/// A warning log line (after its timestamp).
pub fn warn(scope: &str, message: &str) -> (r: String)
    ensures
        r@ == log_entry("WARN"@, scope@, message@),
{
    entry("WARN", scope, message)
}

/// An error log line (after its timestamp).
pub fn error(scope: &str, message: &str) -> (r: String)
    ensures
        r@ == log_entry("ERROR"@, scope@, message@),
{
    entry("ERROR", scope, message)
}

} // verus!
