//! Spreading dates over the posts: checking the range to spread.

use vstd::prelude::*;
use crate::model::PostDate;
use crate::records::{date_read, parse_date, DATE_FORMAT};

verus! {

broadcast use vstd::string::group_string_axioms;

/// The range of dates to spread over the posts, as given on the command
/// line.
#[derive(Debug)]
pub struct SetDatesArgs {
    pub start: String,
    pub end: String,
}

/// Why a range of dates is refused.
#[derive(Debug, Clone, Copy, PartialEq, Eq, Structural)]
pub enum DateRangeError {
    /// The start is no date.
    InvalidStart,
    /// The end is no date.
    InvalidEnd,
    /// The end lies before the start.
    EndBeforeStart,
}

impl DateRangeError {
    /// The text that describes the error.
    pub open spec fn text(self) -> Seq<char> {
        match self {
            DateRangeError::InvalidStart => "start is not a date"@,
            DateRangeError::InvalidEnd => "end is not a date"@,
            DateRangeError::EndBeforeStart => "end date must be after start date."@,
        }
    }

    /// Describes the error.
    pub fn message(self) -> (message: String)
        ensures
            message@ == self.text(),
    {
        match self {
            DateRangeError::InvalidStart => "start is not a date".to_owned(),
            DateRangeError::InvalidEnd => "end is not a date".to_owned(),
            DateRangeError::EndBeforeStart => "end date must be after start date.".to_owned(),
        }
    }
}

/// Whether `a` lies after `b` in the calendar.
pub open spec fn later(a: PostDate, b: PostDate) -> bool {
    a.year > b.year || (a.year == b.year && (a.month > b.month || (a.month == b.month && a.day
        > b.day)))
}

/// Whether `a` lies after `b` in the calendar.
pub fn is_later(a: PostDate, b: PostDate) -> (after: bool)
    ensures
        after == later(a, b),
{
    a.year > b.year || (a.year == b.year && (a.month > b.month || (a.month == b.month && a.day
        > b.day)))
}

/// What checking a range gives: its two dates, or why it is refused. The
/// start is read first; a start after the end is refused.
pub open spec fn checked_range(start: Seq<char>, end: Seq<char>) -> Result<
    (PostDate, PostDate),
    DateRangeError,
> {
    match date_read(start, DATE_FORMAT@) {
        None => Err(DateRangeError::InvalidStart),
        Some(first) => match date_read(end, DATE_FORMAT@) {
            None => Err(DateRangeError::InvalidEnd),
            Some(last) => if later(first, last) {
                Err(DateRangeError::EndBeforeStart)
            } else {
                Ok((first, last))
            },
        },
    }
}

/// Reads and checks the range of dates.
pub fn check_range(args: &SetDatesArgs) -> (range: Result<(PostDate, PostDate), DateRangeError>)
    ensures
        range == checked_range(args.start@, args.end@),
{
    let first = match parse_date(args.start.as_str()) {
        Some(date) => date,
        None => {
            return Err(DateRangeError::InvalidStart);
        },
    };
    let last = match parse_date(args.end.as_str()) {
        Some(date) => date,
        None => {
            return Err(DateRangeError::InvalidEnd);
        },
    };
    if is_later(first, last) {
        Err(DateRangeError::EndBeforeStart)
    } else {
        Ok((first, last))
    }
}

/// No date lies after itself, and of two dates at most one lies after the
/// other.
pub proof fn lemma_later_is_strict(a: PostDate, b: PostDate)
    ensures
        !later(a, a),
        !(later(a, b) && later(b, a)),
{
}

} // verus!
