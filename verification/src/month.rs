//! The month codes and what each adds to the calendar year.

use crate::error::ResolveError;
use vstd::prelude::*;

verus! {

/// Whether `code` names a month of January to June, which belongs to the
/// financial year that ends in its own calendar year.
pub open spec fn is_first_half(code: Seq<char>) -> bool {
    ||| code == "JAN"@
    ||| code == "FEB"@
    ||| code == "MAR"@
    ||| code == "APR"@
    ||| code == "MAY"@
    ||| code == "JUN"@
}

/// Whether `code` names a month of July to December, which belongs to the
/// financial year that ends in the next calendar year.
pub open spec fn is_second_half(code: Seq<char>) -> bool {
    ||| code == "JUL"@
    ||| code == "AUG"@
    ||| code == "SEP"@
    ||| code == "OCT"@
    ||| code == "NOV"@
    ||| code == "DEC"@
}

/// What a month code adds to the calendar year to give the financial year;
/// nothing for a string that is no month code. Codes are three upper-case
/// letters; no other spelling of a month is one.
pub open spec fn month_offset(code: Seq<char>) -> Option<i8> {
    if is_first_half(code) {
        Some(0i8)
    } else if is_second_half(code) {
        Some(1i8)
    } else {
        None
    }
}

/// Spells out the twelve month codes character by character.
pub proof fn lemma_month_codes()
    ensures
        "JAN"@ =~= seq!['J', 'A', 'N'],
        "FEB"@ =~= seq!['F', 'E', 'B'],
        "MAR"@ =~= seq!['M', 'A', 'R'],
        "APR"@ =~= seq!['A', 'P', 'R'],
        "MAY"@ =~= seq!['M', 'A', 'Y'],
        "JUN"@ =~= seq!['J', 'U', 'N'],
        "JUL"@ =~= seq!['J', 'U', 'L'],
        "AUG"@ =~= seq!['A', 'U', 'G'],
        "SEP"@ =~= seq!['S', 'E', 'P'],
        "OCT"@ =~= seq!['O', 'C', 'T'],
        "NOV"@ =~= seq!['N', 'O', 'V'],
        "DEC"@ =~= seq!['D', 'E', 'C'],
{
    reveal_strlit("JAN");
    reveal_strlit("FEB");
    reveal_strlit("MAR");
    reveal_strlit("APR");
    reveal_strlit("MAY");
    reveal_strlit("JUN");
    reveal_strlit("JUL");
    reveal_strlit("AUG");
    reveal_strlit("SEP");
    reveal_strlit("OCT");
    reveal_strlit("NOV");
    reveal_strlit("DEC");
}

/// Looks a month code up: 0 for January to June, 1 for July to December,
/// and `UnknownMonth` for every other string.
pub fn get_month_offset(month: &str) -> (r: Result<i8, ResolveError>)
    ensures
        r == match month_offset(month@) {
            Some(offset) => Ok::<i8, ResolveError>(offset),
            None => Err::<i8, ResolveError>(ResolveError::UnknownMonth),
        },
{
    proof {
        lemma_month_codes();
    }
    if month.unicode_len() != 3 {
        return Err(ResolveError::UnknownMonth);
    }
    let a = month.get_char(0);
    let b = month.get_char(1);
    let c = month.get_char(2);
    assert(month@ =~= seq![a, b, c]);
    match (a, b, c) {
        ('J', 'A', 'N') => Ok(0),
        ('F', 'E', 'B') => Ok(0),
        ('M', 'A', 'R') => Ok(0),
        ('A', 'P', 'R') => Ok(0),
        ('M', 'A', 'Y') => Ok(0),
        ('J', 'U', 'N') => Ok(0),
        ('J', 'U', 'L') => Ok(1),
        ('A', 'U', 'G') => Ok(1),
        ('S', 'E', 'P') => Ok(1),
        ('O', 'C', 'T') => Ok(1),
        ('N', 'O', 'V') => Ok(1),
        ('D', 'E', 'C') => Ok(1),
        _ => Err(ResolveError::UnknownMonth),
    }
}

} // verus!
