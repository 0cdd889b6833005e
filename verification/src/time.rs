//! Wall-clock timestamps and calendar periods.

use vstd::prelude::*;
use chrono::{Datelike, Timelike};

verus! {

/// A local wall-clock instant, broken down into its calendar fields.
///
/// The fields are those a proleptic Gregorian calendar gives: `month` counts
/// from 1, `day` from 1, `hour` from 0. `offset` is the distance of the wall
/// clock from UTC in seconds, east positive, where the instant was taken
/// from a clock; an instant that was written down by hand has none until the
/// zone's rules are applied to it.
#[derive(Clone, Copy, Debug, PartialEq, Eq)]
pub struct Timestamp {
    pub year: i32,
    pub month: u32,
    pub day: u32,
    pub hour: u32,
    pub minute: u32,
    pub second: u32,
    pub nanosecond: u32,
    pub offset: Option<i32>,
}

/// A calendar granularity, used to select entries relative to a "now".
#[derive(Clone, Copy, Debug, PartialEq, Eq, Structural)]
pub enum Period {
    /// The same calendar day.
    Day,
    /// The same ISO week.
    Week,
    /// The same month of the year, whatever the year.
    Month,
    /// The same calendar year.
    Year,
    /// Every instant.
    All,
}

/// What chrono gives as the ISO 8601 week of the calendar date
/// `year`-`month`-`day`: the week-numbering year and the week number, or
/// `None` where chrono holds no such date.
pub uninterp spec fn iso_week_of(year: i32, month: u32, day: u32) -> Option<(i32, u32)>;

/// Asks chrono for the ISO week of a calendar date: `NaiveDate::from_ymd_opt`
/// builds the date, `Datelike::iso_week` gives its week. The contract only
/// names the answer; nothing is claimed about which week it is.
#[verifier::external_body]
fn iso_week(year: i32, month: u32, day: u32) -> (week: Option<(i32, u32)>)
    ensures
        week == iso_week_of(year, month, day),
{
    match chrono::NaiveDate::from_ymd_opt(year, month, day) {
        Some(date) => {
            let week = date.iso_week();
            Some((week.year(), week.week()))
        },
        None => None,
    }
}

/// The strftime pattern of the timestamps that users write:
/// `YYYY-MM-DD HH:MM`.
pub const DATE_IN_FORMAT: &'static str = "%Y-%m-%d %H:%M";

/// What chrono reads from `text` under the strftime pattern `format`: the
/// wall-clock instant written there, or `None` where chrono refuses the
/// text.
pub uninterp spec fn parsed_datetime(text: Seq<char>, format: Seq<char>) -> Option<Timestamp>;

/// Has chrono read a date and time from `text`, with
/// `NaiveDateTime::parse_from_str`, and breaks the answer down into its
/// calendar fields; such an instant carries no offset. The contract only
/// names the answer; nothing is claimed about which texts are accepted, and
/// nothing at all about patterns other than the one this library uses.
#[verifier::external_body]
fn parse_datetime(text: &str, format: &str) -> (stamp: Option<Timestamp>)
    requires
        format@ == DATE_IN_FORMAT@,
    ensures
        stamp == parsed_datetime(text@, format@),
{
    match chrono::NaiveDateTime::parse_from_str(text, format) {
        Ok(t) => Some(
            Timestamp {
                year: t.year(),
                month: t.month(),
                day: t.day(),
                hour: t.hour(),
                minute: t.minute(),
                second: t.second(),
                nanosecond: t.nanosecond(),
                offset: None,
            },
        ),
        Err(_) => None,
    }
}

impl Timestamp {
    /// The instant that `text` writes as `YYYY-MM-DD HH:MM`, if it does.
    pub open spec fn parsed(text: Seq<char>) -> Option<Timestamp> {
        parsed_datetime(text, DATE_IN_FORMAT@)
    }

    /// Reads an instant written as `YYYY-MM-DD HH:MM`.
    pub fn parse(text: &str) -> (stamp: Option<Timestamp>)
        ensures
            stamp == Self::parsed(text@),
    {
        parse_datetime(text, DATE_IN_FORMAT)
    }

    /// The ISO week this instant's date falls in.
    pub open spec fn week(self) -> Option<(i32, u32)> {
        iso_week_of(self.year, self.month, self.day)
    }

    /// Computes the ISO week of this instant's date.
    pub fn iso_week(&self) -> (week: Option<(i32, u32)>)
        ensures
            week == self.week(),
    {
        iso_week(self.year, self.month, self.day)
    }
}

impl Period {
    /// Whether `start` lies within this period as seen from `now`, given the
    /// ISO weeks of the two dates.
    pub open spec fn holds_given_weeks(
        self,
        start: Timestamp,
        now: Timestamp,
        start_week: Option<(i32, u32)>,
        now_week: Option<(i32, u32)>,
    ) -> bool {
        match self {
            Period::Day => start.year == now.year && start.month == now.month && start.day
                == now.day,
            Period::Week => start_week is Some && start_week == now_week,
            Period::Month => start.month == now.month,
            Period::Year => start.year == now.year,
            Period::All => true,
        }
    }

    /// Whether `start` lies within this period as seen from `now`.
    pub open spec fn holds(self, start: Timestamp, now: Timestamp) -> bool {
        self.holds_given_weeks(start, now, start.week(), now.week())
    }

    /// Decides period membership from the two instants and the ISO weeks
    /// of their dates.
    pub fn contains_given_weeks(
        &self,
        start: &Timestamp,
        now: &Timestamp,
        start_week: Option<(i32, u32)>,
        now_week: Option<(i32, u32)>,
    ) -> (inside: bool)
        ensures
            inside == self.holds_given_weeks(*start, *now, start_week, now_week),
    {
        match self {
            Period::Day => start.year == now.year && start.month == now.month && start.day
                == now.day,
            Period::Week => match (start_week, now_week) {
                (Some(a), Some(b)) => a.0 == b.0 && a.1 == b.1,
                _ => false,
            },
            Period::Month => start.month == now.month,
            Period::Year => start.year == now.year,
            Period::All => true,
        }
    }

    /// Decides whether `start` lies within this period as seen from `now`.
    pub fn contains(&self, start: &Timestamp, now: &Timestamp) -> (inside: bool)
        ensures
            inside == self.holds(*start, *now),
    {
        match self {
            Period::Week => {
                let start_week = start.iso_week();
                let now_week = now.iso_week();
                self.contains_given_weeks(start, now, start_week, now_week)
            },
            _ => self.contains_given_weeks(start, now, None, None),
        }
    }
}

} // verus!
