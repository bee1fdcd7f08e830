use vstd::prelude::*;
use vstd::string::*;
use chrono::Datelike;
use crate::error::Error;
use crate::item::texts;
use crate::naming::{
    decimal, digit, get_iterative_filename, is_first_free, join, join_path, padded2, push_decimal,
};
use crate::paths::{extension_of, file_name, get_extension, get_file_name, get_file_stem, stem_of};
use crate::text::{push_char, push_text};

verus! {

/// A day of the calendar, as year, month and day of the month.
#[derive(Debug, Clone, Copy, PartialEq, Eq)]
pub struct CalendarDate {
    pub year: i32,
    pub month: u32,
    pub day: u32,
}

impl CalendarDate {
    pub open spec fn wf(&self) -> bool {
        1 <= self.month <= 12 && 1 <= self.day <= 31
    }
}

/// Seconds from 1970-01-01 00:00:00 UTC to 10000-01-01 00:00:00 UTC: the
/// instants whose date has a four-digit year.
pub const FOUR_DIGIT_YEARS_END: u64 = 253402300800;

/// Relies on `SystemTime::elapsed` on `UNIX_EPOCH`: the whole seconds since
/// the epoch, or nothing when the system clock reads before it.
#[verifier::external_body]
fn seconds_since_epoch() -> (r: Option<u64>) {
    std::time::UNIX_EPOCH.elapsed().ok().map(|d| d.as_secs())
}

/// Relies on chrono's `DateTime::from_timestamp`, `with_timezone(&Local)` and
/// `Datelike::{year, month, day}`: the local date at `secs` seconds after the
/// epoch, whose month lies in 1..=12 and day in 1..=31.
#[verifier::external_body]
fn local_date_at(secs: u64) -> (r: Option<CalendarDate>)
    requires
        secs < FOUR_DIGIT_YEARS_END,
    ensures
        r matches Some(d) ==> d.wf(),
{
    chrono::DateTime::from_timestamp(secs as i64, 0).map(|t| {
        let local = t.with_timezone(&chrono::Local);
        CalendarDate { year: local.year(), month: local.month(), day: local.day() }
    })
}

/// The local date today; none when the system clock reads before 1970 or
/// after 9999.
pub fn today() -> (r: Option<CalendarDate>)
    ensures
        r matches Some(d) ==> d.wf(),
{
    match seconds_since_epoch() {
        Some(secs) => {
            if secs < FOUR_DIGIT_YEARS_END {
                local_date_at(secs)
            } else {
                None
            }
        },
        None => None,
    }
}

/// `n` written with at least four digits, padded with zeros.
pub open spec fn padded4(n: nat) -> Seq<char> {
    if n < 10 {
        seq!['0', '0', '0'] + decimal(n)
    } else if n < 100 {
        seq!['0', '0'] + decimal(n)
    } else if n < 1000 {
        seq!['0'] + decimal(n)
    } else {
        decimal(n)
    }
}

/// A year as a date stamp writes it: four digits for years 0 to 9999, and
/// outside that range a sign before at least four digits.
pub open spec fn year_text(y: int) -> Seq<char> {
    if 0 <= y < 10000 {
        padded4(y as nat)
    } else if y < 0 {
        seq!['-'] + padded4((-y) as nat)
    } else {
        seq!['+'] + padded4(y as nat)
    }
}

/// The date written `YYYY-MM-DD`.
pub open spec fn date_text(d: CalendarDate) -> Seq<char> {
    year_text(d.year as int) + seq!['-'] + padded2(d.month as int) + seq!['-'] + padded2(
        d.day as int,
    )
}

pub open spec fn not_added_name() -> Seq<char> {
    seq!['.', 'n', 'o', 't', 'a', 'd', 'd', 'e', 'd']
}

/// The holding directory `auto_add/.notadded/YYYY-MM-DD` for a date.
pub open spec fn holding_directory(auto_add: Seq<char>, d: CalendarDate) -> Seq<char> {
    join(join(auto_add, not_added_name()), date_text(d))
}

pub open spec fn unnamed_file() -> Seq<char> {
    seq!['u', 'n', 'n', 'a', 'm', 'e', 'd', ' ', 'f', 'i', 'l', 'e']
}

/// The name under which a quarantined file is kept: its stem, or
/// `unnamed file` when it has none.
pub open spec fn quarantine_stem(path: Seq<char>) -> Seq<char> {
    if file_name(path).len() == 0 {
        unnamed_file()
    } else {
        stem_of(file_name(path))
    }
}

fn push_padded4(s: &mut String, n: u64)
    ensures
        final(s)@ == old(s)@ + padded4(n as nat),
{
    if n < 10 {
        push_char(s, '0');
        push_char(s, '0');
        push_char(s, '0');
    } else if n < 100 {
        push_char(s, '0');
        push_char(s, '0');
    } else if n < 1000 {
        push_char(s, '0');
    }
    push_decimal(s, n);
    assert(final(s)@ =~= old(s)@ + padded4(n as nat));
}

fn push_padded2(s: &mut String, n: u32)
    ensures
        final(s)@ == old(s)@ + padded2(n as int),
{
    if n < 10 {
        push_char(s, '0');
        push_decimal(s, n as u64);
        assert(decimal(n as nat) =~= seq![digit(n as nat)]);
    } else {
        push_decimal(s, n as u64);
    }
    assert(final(s)@ =~= old(s)@ + padded2(n as int));
}

/// The date written `YYYY-MM-DD`.
pub fn format_date(d: CalendarDate) -> (r: String)
    ensures
        r@ == date_text(d),
{
    let mut s = String::new();
    let y = d.year;
    if 0 <= y && y < 10000 {
        push_padded4(&mut s, y as u64);
    } else if y < 0 {
        push_char(&mut s, '-');
        let m: i64 = -(y as i64);
        push_padded4(&mut s, m as u64);
    } else {
        push_char(&mut s, '+');
        push_padded4(&mut s, y as u64);
    }
    push_char(&mut s, '-');
    push_padded2(&mut s, d.month);
    push_char(&mut s, '-');
    push_padded2(&mut s, d.day);
    assert(s@ =~= date_text(d));
    s
}

/// The directory, below the inbox `auto_add_path`, in which files set aside
/// on `date` are kept.
pub fn get_not_added_directory(auto_add_path: &str, date: CalendarDate) -> (r: String)
    ensures
        r@ == holding_directory(auto_add_path@, date),
{
    let mut name = String::new();
    push_text(&mut name, ".notadded");
    proof {
        reveal_strlit(".notadded");
    }
    assert(name@ =~= not_added_name());
    let base = join_path(auto_add_path, name.as_str());
    join_path(base.as_str(), format_date(date).as_str())
}

/// Today's date with the holding directory below the inbox `auto_add_path`
/// in which files set aside today are kept; none when the system clock gives
/// no date.
pub fn todays_not_added_directory(auto_add_path: &str) -> (r: Option<(CalendarDate, String)>)
    ensures
        r matches Some((d, dir)) ==> d.wf() && dir@ == holding_directory(auto_add_path@, d),
{
    match today() {
        Some(date) => {
            let dir = get_not_added_directory(auto_add_path, date);
            Some((date, dir))
        },
        None => None,
    }
}

/// Where the file at `path`, which cannot be filed, is set aside on `date`:
/// the first free numbered name for its stem and extension in the holding
/// directory, given the paths that already exist there.
pub fn move_non_track(path: &str, auto_add_path: &str, date: CalendarDate, existing: &Vec<String>) -> (r:
    String)
    ensures
        is_first_free(
            r@,
            holding_directory(auto_add_path@, date),
            quarantine_stem(path@),
            extension_of(file_name(path@)),
            texts(existing@),
        ),
        !texts(existing@).contains(r@),
{
    let dir = get_not_added_directory(auto_add_path, date);
    let f = get_file_name(path);
    let ext = get_extension(f.as_str());
    let stem = if f.unicode_len() == 0 {
        let mut u = String::new();
        push_text(&mut u, "unnamed file");
        proof {
            reveal_strlit("unnamed file");
        }
        assert(u@ =~= unnamed_file());
        u
    } else {
        get_file_stem(f.as_str())
    };
    get_iterative_filename(stem.as_str(), ext.as_str(), dir.as_str(), existing)
}

/// The error reported when a file cannot be set aside at `target`.
pub fn quarantine_error(target: &String) -> (r: Error)
    ensures
        r == Error::UnableToMove(*target),
{
    Error::UnableToMove(target.clone())
}

} // verus!
