//! The naming scheme of data dump files: a version such as `v1.50`, a space
//! or a hyphen, then the date of the dump, with or without hyphens
//! (`v1.50 2024-12-11.json`, `v1.50-20241211.json`).

use vstd::prelude::*;
use vstd::string::*;
use crate::text::{chars_of, is_digit};

verus! {

/// The end of the run of digits that starts at `i`.
pub open spec fn digit_run_end(s: Seq<char>, i: int) -> int
    decreases s.len() - i,
{
    if 0 <= i < s.len() && is_digit(s[i]) {
        digit_run_end(s, i + 1)
    } else {
        i
    }
}

/// `j`, moved past a following `.` and digits if there are any.
pub open spec fn dotted_end(s: Seq<char>, j: int) -> int {
    if 0 <= j && j + 1 < s.len() && s[j] == '.' && is_digit(s[j + 1]) {
        digit_run_end(s, j + 1)
    } else {
        j
    }
}

/// The length of the version at the start of `s`: `v`, digits, and at most
/// two groups of a dot and digits.
pub open spec fn version_end(s: Seq<char>) -> Option<int> {
    if s.len() >= 2 && s[0] == 'v' && is_digit(s[1]) {
        Some(dotted_end(s, dotted_end(s, digit_run_end(s, 1))))
    } else {
        None
    }
}

/// Where the month starts in a date that starts at `i`.
pub open spec fn month_at(s: Seq<char>, i: int) -> int {
    if i + 4 < s.len() && s[i + 4] == '-' {
        i + 5
    } else {
        i + 4
    }
}

/// Where the day starts in a date whose month starts at `m`.
pub open spec fn day_at(s: Seq<char>, m: int) -> int {
    if m + 2 < s.len() && s[m + 2] == '-' {
        m + 3
    } else {
        m + 2
    }
}

/// A date of the scheme starts at `i`: `20` and two digits, an optional
/// hyphen, a month from `0` or `1` and a digit, an optional hyphen, a day
/// from `0` to `3` and a digit.
pub open spec fn date_at(s: Seq<char>, i: int) -> bool {
    let m = month_at(s, i);
    let d = day_at(s, m);
    &&& 0 <= i
    &&& d + 2 <= s.len()
    &&& s[i] == '2' && s[i + 1] == '0' && is_digit(s[i + 2]) && is_digit(s[i + 3])
    &&& '0' <= s[m] <= '1' && is_digit(s[m + 1])
    &&& '0' <= s[d] <= '3' && is_digit(s[d + 1])
}

/// The first position from `i` on where a date starts.
pub open spec fn first_date(s: Seq<char>, i: int) -> Option<int>
    decreases s.len() - i,
{
    if i < 0 || i >= s.len() {
        None
    } else if date_at(s, i) {
        Some(i)
    } else {
        first_date(s, i + 1)
    }
}

pub open spec fn digit_value(c: char) -> int {
    (c as u32) as int - 48
}

pub open spec fn is_leap_year(y: int) -> bool {
    (y % 4 == 0 && y % 100 != 0) || y % 400 == 0
}

pub open spec fn days_in_month(y: int, m: int) -> int {
    if m == 2 {
        if is_leap_year(y) {
            29
        } else {
            28
        }
    } else if m == 4 || m == 6 || m == 9 || m == 11 {
        30
    } else {
        31
    }
}

/// A day of the proleptic Gregorian calendar.
pub open spec fn is_calendar_date(y: int, m: int, d: int) -> bool {
    1 <= m <= 12 && 1 <= d <= days_in_month(y, m)
}

pub open spec fn year_of(s: Seq<char>, i: int) -> int {
    1000 * digit_value(s[i]) + 100 * digit_value(s[i + 1]) + 10 * digit_value(s[i + 2]) + digit_value(
        s[i + 3],
    )
}

pub open spec fn two_digits(s: Seq<char>, i: int) -> int {
    10 * digit_value(s[i]) + digit_value(s[i + 1])
}

/// The version at the start of a file name, or nothing.
pub open spec fn data_version_of(s: Seq<char>) -> Seq<char> {
    match version_end(s) {
        Some(n) => s.subrange(0, n),
        None => Seq::empty(),
    }
}

/// The first date in a file name as `yyyy-mm-dd`, or nothing when there is
/// none or the first one is no day of the calendar.
pub open spec fn data_date_of(s: Seq<char>) -> Seq<char> {
    match first_date(s, 0) {
        Some(i) => {
            let m = month_at(s, i);
            let d = day_at(s, m);
            if is_calendar_date(year_of(s, i), two_digits(s, m), two_digits(s, d)) {
                s.subrange(i, i + 4) + seq!['-'] + s.subrange(m, m + 2) + seq!['-'] + s.subrange(
                    d,
                    d + 2,
                )
            } else {
                Seq::empty()
            }
        },
        None => Seq::empty(),
    }
}

/// A file name that follows the scheme.
pub open spec fn compliant_file_name(s: Seq<char>) -> bool {
    match version_end(s) {
        Some(n) => n < s.len() && (s[n] == '-' || s[n] == ' ') && date_at(s, n + 1),
        None => false,
    }
}

/// Relies on chrono's `NaiveDate::from_ymd_opt`: it gives a date exactly for
/// a day of the proleptic Gregorian calendar, years 1 to 9999 lying within
/// its range.
#[verifier::external_body]
fn calendar_date_exists(year: i32, month: u32, day: u32) -> (r: bool)
    requires
        1 <= year <= 9999,
    ensures
        r == is_calendar_date(year as int, month as int, day as int),
{
    chrono::NaiveDate::from_ymd_opt(year, month, day).is_some()
}

fn digit_run_end_exec(s: &Vec<char>, i: usize) -> (r: usize)
    requires
        i <= s.len(),
    ensures
        r == digit_run_end(s@, i as int),
        i <= r <= s.len(),
{
    let mut j = i;
    while j < s.len() && '0' <= s[j] && s[j] <= '9'
        invariant
            i <= j <= s.len(),
            digit_run_end(s@, i as int) == digit_run_end(s@, j as int),
        decreases s.len() - j,
    {
        j = j + 1;
    }
    j
}

fn dotted_end_exec(s: &Vec<char>, j: usize) -> (r: usize)
    requires
        j <= s.len(),
    ensures
        r == dotted_end(s@, j as int),
        j <= r <= s.len(),
{
    if j < s.len() && j + 1 < s.len() && s[j] == '.' && '0' <= s[j + 1] && s[j + 1] <= '9' {
        digit_run_end_exec(s, j + 1)
    } else {
        j
    }
}

fn version_end_exec(s: &Vec<char>) -> (r: Option<usize>)
    ensures
        match r {
            Some(n) => version_end(s@) == Some(n as int) && n <= s.len(),
            None => version_end(s@) is None,
        },
{
    if s.len() >= 2 && s[0] == 'v' && '0' <= s[1] && s[1] <= '9' {
        let a = digit_run_end_exec(s, 1);
        let b = dotted_end_exec(s, a);
        Some(dotted_end_exec(s, b))
    } else {
        None
    }
}

fn date_at_exec(s: &Vec<char>, i: usize) -> (r: bool)
    requires
        i <= s.len(),
    ensures
        r == date_at(s@, i as int),
{
    if s.len() - i < 4 {
        return false;
    }
    let m = if i + 4 < s.len() && s[i + 4] == '-' {
        i + 5
    } else {
        i + 4
    };
    if s.len() - m < 2 {
        return false;
    }
    let d = if m + 2 < s.len() && s[m + 2] == '-' {
        m + 3
    } else {
        m + 2
    };
    s.len() - d >= 2 && s[i] == '2' && s[i + 1] == '0' && '0' <= s[i + 2] && s[i + 2] <= '9' && '0'
        <= s[i + 3] && s[i + 3] <= '9' && '0' <= s[m] && s[m] <= '1' && '0' <= s[m + 1] && s[m + 1]
        <= '9' && '0' <= s[d] && s[d] <= '3' && '0' <= s[d + 1] && s[d + 1] <= '9'
}

fn first_date_exec(s: &Vec<char>) -> (r: Option<usize>)
    ensures
        match r {
            Some(i) => first_date(s@, 0) == Some(i as int) && date_at(s@, i as int),
            None => first_date(s@, 0) is None,
        },
{
    let mut i: usize = 0;
    while i < s.len()
        invariant
            i <= s.len(),
            first_date(s@, 0) == first_date(s@, i as int),
        decreases s.len() - i,
    {
        if date_at_exec(s, i) {
            return Some(i);
        }
        i = i + 1;
    }
    None
}

/// Whether `input` starts with a version of the scheme.
pub fn is_compliant_version(input: &str) -> (r: bool)
    ensures
        r == version_end(input@) is Some,
{
    let s = chars_of(input);
    version_end_exec(&s).is_some()
}

/// Whether `input` follows the naming scheme of dump files.
pub fn is_compliant_file_name(input: &str) -> (r: bool)
    ensures
        r == compliant_file_name(input@),
{
    let s = chars_of(input);
    match version_end_exec(&s) {
        Some(n) => n < s.len() && (s[n] == '-' || s[n] == ' ') && date_at_exec(&s, n + 1),
        None => false,
    }
}

/// The version at the start of `input`, or an empty string.
pub fn get_data_version(input: &str) -> (r: String)
    ensures
        r@ == data_version_of(input@),
{
    let s = chars_of(input);
    match version_end_exec(&s) {
        Some(n) => String::from_str(input.substring_char(0, n)),
        None => String::new(),
    }
}

fn digit_at(s: &Vec<char>, i: usize) -> (r: u32)
    requires
        i < s.len(),
        is_digit(s@[i as int]),
    ensures
        r == digit_value(s@[i as int]),
        r <= 9,
{
    (s[i] as u32) - 48
}

/// The first date in `input` as `yyyy-mm-dd`, or an empty string when there
/// is none or the first one is no day of the calendar.
pub fn get_data_date(input: &str) -> (r: String)
    ensures
        r@ == data_date_of(input@),
{
    let s = chars_of(input);
    match first_date_exec(&s) {
        Some(i) => {
            let m = if i + 4 < s.len() && s[i + 4] == '-' {
                i + 5
            } else {
                i + 4
            };
            let d = if m + 2 < s.len() && s[m + 2] == '-' {
                m + 3
            } else {
                m + 2
            };
            let year = 1000 * digit_at(&s, i) + 100 * digit_at(&s, i + 1) + 10 * digit_at(&s, i + 2)
                + digit_at(&s, i + 3);
            let month = 10 * digit_at(&s, m) + digit_at(&s, m + 1);
            let day = 10 * digit_at(&s, d) + digit_at(&s, d + 1);
            if calendar_date_exists(year as i32, month, day) {
                let mut r = String::from_str(input.substring_char(i, i + 4));
                r.append("-");
                r.append(input.substring_char(m, m + 2));
                r.append("-");
                r.append(input.substring_char(d, d + 2));
                proof {
                    reveal_strlit("-");
                }
                r
            } else {
                String::new()
            }
        },
        None => String::new(),
    }
}

} // verus!
