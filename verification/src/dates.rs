//! The "added on" date of a movie: a timestamp or a plain date, read with
//! chrono's parser.

use vstd::prelude::*;
use chrono::{Datelike, Timelike};
use crate::models::FullMovie;

verus! {

/// A date and time of day, field by field.
#[derive(Debug, Clone, Copy, PartialEq, Eq, Structural)]
pub struct DateTimeParts {
    pub year: i32,
    pub month: u32,
    pub day: u32,
    pub hour: u32,
    pub minute: u32,
    pub second: u32,
    pub nanosecond: u32,
}

/// The format of an "added on" timestamp.
pub const ADDED_ON_DATETIME_FORMAT: &'static str = "%Y-%m-%d %H:%M:%S%.f";

/// The format of an "added on" date without a time.
pub const ADDED_ON_DATE_FORMAT: &'static str = "%Y-%m-%d";

/// What `chrono::NaiveDateTime::parse_from_str` gives for a text and a
/// format: the date and time as (year, month, day, hour, minute, second,
/// nanosecond), or `None` when the text does not parse.
pub uninterp spec fn spec_parse_datetime(s: Seq<char>, fmt: Seq<char>) -> Option<(i32, u32, u32, u32, u32, u32, u32)>;

/// What `chrono::NaiveDate::parse_from_str` gives for a text and a format:
/// the date as (year, month, day), or `None` when the text does not parse.
pub uninterp spec fn spec_parse_date(s: Seq<char>, fmt: Seq<char>) -> Option<(i32, u32, u32)>;

/// Calls `chrono::NaiveDateTime::parse_from_str` and hands the result back
/// field by field; named by `spec_parse_datetime`.
#[verifier::external_body]
fn parse_naive_datetime(s: &str, fmt: &str) -> (r: Option<(i32, u32, u32, u32, u32, u32, u32)>)
    ensures
        r == spec_parse_datetime(s@, fmt@),
{
    match chrono::NaiveDateTime::parse_from_str(s, fmt) {
        Ok(t) => Some((t.year(), t.month(), t.day(), t.hour(), t.minute(), t.second(), t.nanosecond())),
        Err(_) => None,
    }
}

/// Calls `chrono::NaiveDate::parse_from_str` and hands the result back
/// field by field; named by `spec_parse_date`.
#[verifier::external_body]
fn parse_naive_date(s: &str, fmt: &str) -> (r: Option<(i32, u32, u32)>)
    ensures
        r == spec_parse_date(s@, fmt@),
{
    match chrono::NaiveDate::parse_from_str(s, fmt) {
        Ok(d) => Some((d.year(), d.month(), d.day())),
        Err(_) => None,
    }
}

/// The "added on" moment a text stands for: a timestamp in
/// `ADDED_ON_DATETIME_FORMAT`, else midnight of a date in
/// `ADDED_ON_DATE_FORMAT`, else nothing.
pub open spec fn added_on(s: Seq<char>) -> Option<DateTimeParts> {
    match spec_parse_datetime(s, ADDED_ON_DATETIME_FORMAT@) {
        Some(t) => Some(
            DateTimeParts {
                year: t.0,
                month: t.1,
                day: t.2,
                hour: t.3,
                minute: t.4,
                second: t.5,
                nanosecond: t.6,
            },
        ),
        None => match spec_parse_date(s, ADDED_ON_DATE_FORMAT@) {
            Some(d) => Some(
                DateTimeParts { year: d.0, month: d.1, day: d.2, hour: 0, minute: 0, second: 0, nanosecond: 0 },
            ),
            None => None,
        },
    }
}

/// Reads the "added on" date of a movie: a timestamp, or a date taken at
/// midnight; `None` when the text is neither.
pub fn parse_added_on_date(date_str: &str, movie_name: &str) -> (r: Option<DateTimeParts>)
    ensures
        r == added_on(date_str@),
{
    match parse_naive_datetime(date_str, ADDED_ON_DATETIME_FORMAT) {
        Some(t) => Some(
            DateTimeParts {
                year: t.0,
                month: t.1,
                day: t.2,
                hour: t.3,
                minute: t.4,
                second: t.5,
                nanosecond: t.6,
            },
        ),
        None => match parse_naive_date(date_str, ADDED_ON_DATE_FORMAT) {
            Some(d) => Some(
                DateTimeParts { year: d.0, month: d.1, day: d.2, hour: 0, minute: 0, second: 0, nanosecond: 0 },
            ),
            None => None,
        },
    }
}

/// Checks an "added on" date before import: accepted exactly when
/// `parse_added_on_date` reads it, else `Invalid date '<date>' for movie
/// '<movie>'`.
pub fn parse_date(date_str: &str, movie_name: &str) -> (r: Result<(), String>)
    ensures
        r is Ok <==> added_on(date_str@) is Some,
        r matches Err(e) ==> e@ == "Invalid date '"@ + date_str@ + "' for movie '"@ + movie_name@ + "'"@,
{
    match parse_added_on_date(date_str, movie_name) {
        Some(_) => Ok(()),
        None => {
            let mut e = String::from_str("Invalid date '");
            e.append(date_str);
            e.append("' for movie '");
            e.append(movie_name);
            e.append("'");
            Err(e)
        },
    }
}

/// Whether a movie's "added on" date, when it has one, is readable.
pub open spec fn added_on_ok(m: FullMovie) -> bool {
    match m.added_on {
        Some(d) => added_on(d@) is Some,
        None => true,
    }
}

/// The message for a movie whose "added on" date cannot be read.
pub open spec fn invalid_date_message(m: FullMovie) -> Seq<char> {
    match m.added_on {
        Some(d) => "Invalid date '"@ + d@ + "' for movie '"@ + m.name@ + "'"@,
        None => Seq::empty(),
    }
}

/// Checks the "added on" date of every movie of an import before anything
/// is written: `Ok` when all are readable, else the message for the first
/// movie whose date is not.
pub fn check_added_on_dates(movies: &Vec<FullMovie>) -> (r: Result<(), String>)
    ensures
        r is Ok <==> forall|i: int| 0 <= i < movies@.len() ==> added_on_ok(#[trigger] movies@[i]),
        r matches Err(e) ==> exists|i: int|
            0 <= i < movies@.len() && !added_on_ok(#[trigger] movies@[i]) && (forall|j: int|
                0 <= j < i ==> added_on_ok(#[trigger] movies@[j])) && e@ == invalid_date_message(movies@[i]),
{
    let mut i: usize = 0;
    while i < movies.len()
        invariant
            i <= movies.len(),
            forall|j: int| 0 <= j < i ==> added_on_ok(#[trigger] movies@[j]),
        decreases movies.len() - i,
    {
        match &movies[i].added_on {
            Some(d) => {
                let checked = parse_date(d.as_str(), movies[i].name.as_str());
                match checked {
                    Ok(()) => {},
                    Err(e) => {
                        assert(!added_on_ok(movies@[i as int]));
                        return Err(e);
                    },
                }
            },
            None => {},
        }
        i += 1;
    }
    Ok(())
}

} // verus!
