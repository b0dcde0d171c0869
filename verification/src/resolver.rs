//! From a date token to its financial year.
//!
//! The length of a token, counted in characters, alone decides how it is
//! read; its fields are looked at only after that. No token makes a
//! function here fail otherwise than by its error.

use crate::error::ResolveError;
use crate::month::{get_month_offset, month_offset};
use crate::number::{lemma_field_bound, parse_u16, parse_u16_spec};
use vstd::prelude::*;

verus! {

/// The encodings of a date token.
#[derive(Clone, Copy, Debug, PartialEq, Eq, Structural)]
pub enum DateFormat {
    /// A year and the letters `FY`, as in `2022FY`.
    YearFY,
    /// A month code and a year, as in `JAN2022`.
    MonthYear,
    /// A day, a month code and a year, as in `21JAN2022`.
    FullDate,
    /// Anything else.
    Unrecognized,
}

impl DateFormat {
    /// The encoding that a token of `len` characters has.
    pub open spec fn of_length(len: nat) -> DateFormat {
        if len == 6 {
            DateFormat::YearFY
        } else if len == 7 {
            DateFormat::MonthYear
        } else if len == 9 {
            DateFormat::FullDate
        } else {
            DateFormat::Unrecognized
        }
    }

    /// The encoding that a token of `len` characters has.
    pub fn from_length(len: usize) -> (format: DateFormat)
        ensures
            format == Self::of_length(len as nat),
    {
        if len == 6 {
            DateFormat::YearFY
        } else if len == 7 {
            DateFormat::MonthYear
        } else if len == 9 {
            DateFormat::FullDate
        } else {
            DateFormat::Unrecognized
        }
    }

    /// The encoding of `token`, which is that of its length in characters.
    pub fn detect(token: &str) -> (format: DateFormat)
        ensures
            format == Self::of_length(token@.len()),
    {
        Self::from_length(token.unicode_len())
    }
}

/// The financial year of a six-character token: its first four characters
/// read as a number, provided that the last two are exactly `FY`.
pub open spec fn year_only_fy(token: Seq<char>) -> Result<u16, ResolveError>
    recommends
        token.len() == 6,
{
    if token.subrange(4, 6) == "FY"@ {
        match parse_u16_spec(token.subrange(0, 4)) {
            Some(year) => Ok(year),
            None => Err(ResolveError::InvalidFormat),
        }
    } else {
        Err(ResolveError::InvalidFormat)
    }
}

/// The financial year of a seven-character token: its last four characters
/// read as a year, plus what the month code in its first three adds. An
/// unknown month is reported before a year that is no number.
pub open spec fn month_year_fy(token: Seq<char>) -> Result<u16, ResolveError>
    recommends
        token.len() == 7,
{
    match month_offset(token.subrange(0, 3)) {
        None => Err(ResolveError::UnknownMonth),
        Some(offset) => match parse_u16_spec(token.subrange(3, 7)) {
            None => Err(ResolveError::InvalidYear),
            Some(year) => Ok((year + offset) as u16),
        },
    }
}

/// The financial year of a nine-character token: that of its last seven
/// characters, provided that the first two read as a number. Which number
/// they read as does not matter.
pub open spec fn full_date_fy(token: Seq<char>) -> Result<u16, ResolveError>
    recommends
        token.len() == 9,
{
    match parse_u16_spec(token.subrange(0, 2)) {
        None => Err(ResolveError::InvalidDay),
        Some(_) => month_year_fy(token.subrange(2, 9)),
    }
}

/// The financial year that a token names, by the encoding of its length.
pub open spec fn financial_year(token: Seq<char>) -> Result<u16, ResolveError> {
    match DateFormat::of_length(token.len()) {
        DateFormat::YearFY => year_only_fy(token),
        DateFormat::MonthYear => month_year_fy(token),
        DateFormat::FullDate => full_date_fy(token),
        DateFormat::Unrecognized => Err(ResolveError::UnrecognizedFormat),
    }
}

/// Reads a token of a year and the suffix `FY`, such as `2022FY`.
pub fn get_fy_fy_year_only(date: &str) -> (r: Result<u16, ResolveError>)
    requires
        date@.len() == 6,
    ensures
        r == year_only_fy(date@),
{
    proof {
        reveal_strlit("FY");
        assert(date@.subrange(4, 6) =~= seq![date@[4], date@[5]]);
        assert("FY"@ =~= seq!['F', 'Y']);
    }
    if date.get_char(4) != 'F' || date.get_char(5) != 'Y' {
        assert(date@.subrange(4, 6)[0] != 'F' || date@.subrange(4, 6)[1] != 'Y');
        return Err(ResolveError::InvalidFormat);
    }
    match parse_u16(date.substring_char(0, 4)) {
        Some(year) => Ok(year),
        None => Err(ResolveError::InvalidFormat),
    }
}

/// Reads a token of a month code and a year, such as `JAN2022`.
pub fn process_month_and_year(date: &str) -> (r: Result<u16, ResolveError>)
    requires
        date@.len() == 7,
    ensures
        r == month_year_fy(date@),
{
    let offset = match get_month_offset(date.substring_char(0, 3)) {
        Ok(offset) => offset,
        Err(e) => {
            return Err(e);
        },
    };
    match parse_u16(date.substring_char(3, 7)) {
        Some(year) => {
            proof {
                lemma_field_bound(date@.subrange(3, 7));
            }
            Ok(year + offset as u16)
        },
        None => Err(ResolveError::InvalidYear),
    }
}

/// Reads a token of a day, a month code and a year, such as `21JAN2022`.
/// The day has to be a number and is otherwise not looked at.
pub fn get_fy_full_date(date: &str) -> (r: Result<u16, ResolveError>)
    requires
        date@.len() == 9,
    ensures
        r == full_date_fy(date@),
{
    match parse_u16(date.substring_char(0, 2)) {
        Some(_) => process_month_and_year(date.substring_char(2, 9)),
        None => Err(ResolveError::InvalidDay),
    }
}

/// The financial year that `token` names. Its length picks the encoding
/// before any field is read: a token of another length than 6, 7 or 9 is
/// `UnrecognizedFormat`, whatever it holds.
pub fn resolve(token: &str) -> (r: Result<u16, ResolveError>)
    ensures
        r == financial_year(token@),
{
    match DateFormat::detect(token) {
        DateFormat::YearFY => get_fy_fy_year_only(token),
        DateFormat::MonthYear => process_month_and_year(token),
        DateFormat::FullDate => get_fy_full_date(token),
        DateFormat::Unrecognized => Err(ResolveError::UnrecognizedFormat),
    }
}

} // verus!
