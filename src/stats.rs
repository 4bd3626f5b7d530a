//! Review statistics: the three date windows, the six counting searches, and
//! reading a count out of a search's output.

use vstd::prelude::*;
use crate::classify::REPO;
use crate::reviews::strings_view;
use crate::text::decimal_text;
use crate::classify::arg_lists_view;
use chrono::Datelike;

verus! {

/// The first year the calendar arithmetic covers.
pub const MIN_YEAR: i32 = -262143;

/// The last year the calendar arithmetic covers.
pub const MAX_YEAR: i32 = 262142;

/// A day of the proleptic Gregorian calendar.
#[derive(Debug, Clone, Copy, PartialEq, Eq, Structural)]
pub struct Date {
    pub year: i32,
    pub month: u32,
    pub day: u32,
}

pub open spec fn is_leap_year(y: int) -> bool {
    (y % 4 == 0 && y % 100 != 0) || y % 400 == 0
}

pub open spec fn days_in_month(y: int, m: int) -> int {
    if m == 2 {
        if is_leap_year(y) { 29 } else { 28 }
    } else if m == 4 || m == 6 || m == 9 || m == 11 {
        30
    } else {
        31
    }
}

/// A real calendar day within the covered years.
pub open spec fn valid_date(d: Date) -> bool {
    &&& MIN_YEAR <= d.year <= MAX_YEAR
    &&& 1 <= d.month <= 12
    &&& 1 <= d.day <= days_in_month(d.year as int, d.month as int)
}

/// Days since a fixed origin; consecutive days have consecutive numbers.
pub open spec fn day_number(d: Date) -> int {
    let y = if d.month <= 2 { d.year - 1 } else { d.year as int };
    let mp = if d.month > 2 { d.month - 3 } else { d.month + 9 };
    365 * y + y / 4 - y / 100 + y / 400 + (153 * mp + 2) / 5 + d.day - 1
}

/// `n` written with at least `w` digits, zero-padded on the left.
pub open spec fn padded(n: nat, w: nat) -> Seq<char>
    decreases w,
{
    if w == 0 || decimal_text(n).len() >= w {
        decimal_text(n)
    } else {
        seq!['0'] + padded(n, (w - 1) as nat)
    }
}

/// The year as `%Y` writes it: four digits, with a sign outside 0..=9999.
pub open spec fn year_text(y: int) -> Seq<char> {
    if 0 <= y <= 9999 {
        padded(y as nat, 4)
    } else if y < 0 {
        seq!['-'] + padded((-y) as nat, 4)
    } else {
        seq!['+'] + padded(y as nat, 4)
    }
}

/// `YYYY-MM-DD`.
pub open spec fn ymd_text(d: Date) -> Seq<char> {
    year_text(d.year as int) + seq!['-'] + padded(d.month as nat, 2) + seq!['-'] + padded(d.day as nat, 2)
}

/// Relies on chrono's NaiveDate::checked_sub_days: the calendar day `days`
/// days earlier, or none when that leaves chrono's range.
#[verifier::external_body]
fn days_before(d: Date, days: u32) -> (r: Option<Date>)
    ensures
        r matches Some(p) ==> valid_date(d) && valid_date(p) && day_number(p) == day_number(d) - days,
        valid_date(d) && d.year >= MIN_YEAR + 2 && days <= 366 ==> r is Some,
{
    match chrono::NaiveDate::from_ymd_opt(d.year, d.month, d.day) {
        Some(n) => match n.checked_sub_days(chrono::Days::new(days as u64)) {
            Some(p) => Some(Date { year: p.year(), month: p.month(), day: p.day() }),
            None => None,
        },
        None => None,
    }
}

/// Relies on chrono's `%Y-%m-%d` formatting of a NaiveDate.
#[verifier::external_body]
fn format_ymd(d: Date) -> (r: String)
    requires
        valid_date(d),
    ensures
        r@ == ymd_text(d),
{
    chrono::NaiveDate::from_ymd_opt(d.year, d.month, d.day).unwrap().format("%Y-%m-%d").to_string()
}

/// A calendar day as `YYYY-MM-DD`.
pub fn format_date(d: Date) -> (r: String)
    requires
        valid_date(d),
    ensures
        r@ == ymd_text(d),
{
    format_ymd(d)
}

/// The date windows the statistics count over.
#[derive(Debug, Clone, Copy, PartialEq, Eq, Structural)]
pub struct DateWindows {
    /// First day of the current month.
    pub month_start: Date,
    /// First day of the previous calendar month.
    pub prev_month_start: Date,
    /// Last day of the previous calendar month.
    pub prev_month_end: Date,
    /// Ninety days before today (a rolling window).
    pub ninety_day_start: Date,
}

/// First day of the month before `d`'s.
pub open spec fn previous_month_start(d: Date) -> Date {
    if d.month == 1 {
        Date { year: (d.year - 1) as i32, month: 12, day: 1 }
    } else {
        Date { year: d.year, month: (d.month - 1) as u32, day: 1 }
    }
}

/// Whether `w` holds the windows of `today`.
pub open spec fn windows_of(today: Date, w: DateWindows) -> bool {
    &&& w.month_start == (Date { year: today.year, month: today.month, day: 1 })
    &&& w.prev_month_start == previous_month_start(today)
    &&& valid_date(w.prev_month_end)
    &&& day_number(w.prev_month_end) == day_number(w.month_start) - 1
    &&& valid_date(w.ninety_day_start)
    &&& day_number(w.ninety_day_start) == day_number(today) - 90
}

/// The windows of `today`: month to date, the previous calendar month, and
/// the trailing ninety days.
pub fn date_windows(today: Date) -> (r: Option<DateWindows>)
    requires
        valid_date(today),
    ensures
        today.year >= MIN_YEAR + 2 ==> r is Some,
        r matches Some(w) ==> windows_of(today, w),
{
    let month_start = Date { year: today.year, month: today.month, day: 1 };
    let prev_month_start = if today.month == 1 {
        Date { year: today.year - 1, month: 12, day: 1 }
    } else {
        Date { year: today.year, month: today.month - 1, day: 1 }
    };
    let prev_month_end = match days_before(month_start, 1) {
        Some(p) => p,
        None => return None,
    };
    let ninety_day_start = match days_before(today, 90) {
        Some(p) => p,
        None => return None,
    };
    Some(DateWindows { month_start, prev_month_start, prev_month_end, ninety_day_start })
}

/// The window bounds as `YYYY-MM-DD` texts: month start, previous month
/// start, previous month end, ninety-day start, and today.
pub fn get_date_ranges(today: Date) -> (r: Option<(String, String, String, String, String)>)
    requires
        valid_date(today),
    ensures
        today.year >= MIN_YEAR + 2 ==> r is Some,
        r matches Some(t) ==> exists|w: DateWindows|
            windows_of(today, w) && t.0@ == ymd_text(w.month_start) && t.1@ == ymd_text(
                w.prev_month_start,
            ) && t.2@ == ymd_text(w.prev_month_end) && t.3@ == ymd_text(w.ninety_day_start)
                && t.4@ == ymd_text(today),
{
    match date_windows(today) {
        Some(w) => {
            let t = (
                format_ymd(w.month_start),
                format_ymd(w.prev_month_start),
                format_ymd(w.prev_month_end),
                format_ymd(w.ninety_day_start),
                format_ymd(today),
            );
            assert(windows_of(today, w));
            Some(t)
        },
        None => None,
    }
}

/// The length of the list a text holds when read as a JSON array.
pub uninterp spec fn json_list_len(s: Seq<char>) -> Option<usize>;

/// Relies on serde_json::from_str reading a JSON array of any values.
#[verifier::external_body]
fn json_array_len(s: &str) -> (r: Option<usize>)
    ensures
        r == json_list_len(s@),
{
    match serde_json::from_str::<Vec<serde_json::Value>>(s) {
        Ok(v) => Some(v.len()),
        Err(_) => None,
    }
}

/// The number of pull requests a counting search found, from its output when
/// the tool reports success; zero on failure or unreadable output.
pub fn count_prs_from_output(success: bool, stdout: &str) -> (r: u32)
    ensures
        r == (if success {
            match json_list_len(stdout@) {
                Some(n) => n as u32,
                None => 0u32,
            }
        } else {
            0u32
        }),
{
    if !success {
        return 0;
    }
    count_listed(json_array_len(stdout))
}

/// The count a parsed list length gives (wrapping past `u32::MAX`).
pub fn count_listed(len: Option<usize>) -> (r: u32)
    ensures
        r == (match len {
            Some(n) => n as u32,
            None => 0u32,
        }),
{
    match len {
        Some(n) => n as u32,
        None => 0,
    }
}

/// The arguments of one counting search.
pub open spec fn stats_line(role: Seq<char>, me: Seq<char>, range: Seq<char>) -> Seq<Seq<char>> {
    seq![
        "search"@,
        "prs"@,
        "--repo"@,
        REPO@,
        role,
        me,
        "--merged"@,
        "--merged"@,
        range,
        "--json"@,
        "number"@,
        "--limit"@,
        "200"@,
    ]
}

/// The six counting searches: merged pull requests authored by `me`, then
/// merged ones `me` reviewed, each over month to date, the previous month,
/// and the trailing ninety days.
pub open spec fn stats_searches_spec(me: Seq<char>, mtd: Seq<char>, prev_start: Seq<char>, prev_end: Seq<char>, ninety: Seq<char>) -> Seq<Seq<Seq<char>>> {
    seq![
        stats_line("--author"@, me, ">="@ + mtd),
        stats_line("--author"@, me, prev_start + ".."@ + prev_end),
        stats_line("--author"@, me, ">="@ + ninety),
        stats_line("--reviewed-by"@, me, ">="@ + mtd),
        stats_line("--reviewed-by"@, me, prev_start + ".."@ + prev_end),
        stats_line("--reviewed-by"@, me, ">="@ + ninety),
    ]
}

fn stats_line_exec(role: &str, me: &str, range: String) -> (r: Vec<String>)
    ensures
        strings_view(r@) == stats_line(role@, me@, range@),
{
    let r = vec![
        "search".to_owned(),
        "prs".to_owned(),
        "--repo".to_owned(),
        REPO.to_owned(),
        role.to_owned(),
        me.to_owned(),
        "--merged".to_owned(),
        "--merged".to_owned(),
        range,
        "--json".to_owned(),
        "number".to_owned(),
        "--limit".to_owned(),
        "200".to_owned(),
    ];
    assert(strings_view(r@) =~= stats_line(role@, me@, range@));
    r
}

/// The argument lists of the six counting searches, in the order of the
/// fields of `GitHubStats`.
pub fn stats_search_args(me: &str, mtd: &str, prev_start: &str, prev_end: &str, ninety: &str) -> (r: Vec<Vec<String>>)
    ensures
        arg_lists_view(r@) == stats_searches_spec(me@, mtd@, prev_start@, prev_end@, ninety@),
{
    let since_mtd = ">=".to_owned().concat(mtd);
    let prev = prev_start.to_owned().concat("..").concat(prev_end);
    let since_ninety = ">=".to_owned().concat(ninety);
    let r = vec![
        stats_line_exec("--author", me, since_mtd.clone()),
        stats_line_exec("--author", me, prev.clone()),
        stats_line_exec("--author", me, since_ninety.clone()),
        stats_line_exec("--reviewed-by", me, since_mtd),
        stats_line_exec("--reviewed-by", me, prev),
        stats_line_exec("--reviewed-by", me, since_ninety),
    ];
    assert(arg_lists_view(r@) =~= stats_searches_spec(me@, mtd@, prev_start@, prev_end@, ninety@));
    r
}

} // verus!
