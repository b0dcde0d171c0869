//! What holds of every token and every stem.

use crate::error::ResolveError;
use crate::extractor::{last_non_empty, segments, token_of, SEPARATOR};
use crate::month::{is_first_half, is_second_half, lemma_month_codes, month_offset};
use crate::number::{
    decimal_digits, four_digit_number, is_digit, lemma_decimal_digits_len,
    lemma_decimal_digits_value, lemma_field_bound, lemma_four_digit_field, parse_u16_spec,
    parse_unsigned, unsigned_digits,
};
use crate::placement::directory_name_spec;
use crate::resolver::financial_year;
use vstd::prelude::*;

verus! {

/// A token of four digits and the letters `FY` names the year that the
/// four digits write.
pub proof fn law_year_only(token: Seq<char>)
    requires
        token.len() == 6,
        is_digit(token[0]),
        is_digit(token[1]),
        is_digit(token[2]),
        is_digit(token[3]),
        token[4] == 'F',
        token[5] == 'Y',
    ensures
        financial_year(token) == Ok::<u16, ResolveError>(
            four_digit_number(token[0], token[1], token[2], token[3]) as u16,
        ),
        four_digit_number(token[0], token[1], token[2], token[3]) <= 9999,
{
    reveal_strlit("FY");
    assert(token.subrange(4, 6) =~= "FY"@);
    lemma_four_digit_field(token.subrange(0, 4));
}

/// A token of a month code and four digits names the year that the digits
/// write for a month of January to June, and the year after it for a month
/// of July to December.
pub proof fn law_month_year(token: Seq<char>)
    requires
        token.len() == 7,
        month_offset(token.subrange(0, 3)) is Some,
        is_digit(token[3]),
        is_digit(token[4]),
        is_digit(token[5]),
        is_digit(token[6]),
    ensures
        is_first_half(token.subrange(0, 3)) ==> financial_year(token) == Ok::<u16, ResolveError>(
            four_digit_number(token[3], token[4], token[5], token[6]) as u16,
        ),
        is_second_half(token.subrange(0, 3)) ==> financial_year(token) == Ok::<u16, ResolveError>(
            (four_digit_number(token[3], token[4], token[5], token[6]) + 1) as u16,
        ),
        is_first_half(token.subrange(0, 3)) != is_second_half(token.subrange(0, 3)),
        four_digit_number(token[3], token[4], token[5], token[6]) + 1 <= 10000,
{
    lemma_month_codes();
    lemma_four_digit_field(token.subrange(3, 7));
}

/// A token of nine characters whose first two read as a number names
/// whatever its last seven characters name, be it a year or an error.
pub proof fn law_full_date(token: Seq<char>)
    requires
        token.len() == 9,
        parse_u16_spec(token.subrange(0, 2)) is Some,
    ensures
        financial_year(token) == financial_year(token.subrange(2, 9)),
{
}

/// The day of a full date never affects the result: two tokens of nine
/// characters that differ in their days only, both of which read as
/// numbers, name the same.
pub proof fn law_day_is_discarded(first: Seq<char>, second: Seq<char>)
    requires
        first.len() == 9,
        second.len() == 9,
        first.subrange(2, 9) == second.subrange(2, 9),
        parse_u16_spec(first.subrange(0, 2)) is Some,
        parse_u16_spec(second.subrange(0, 2)) is Some,
    ensures
        financial_year(first) == financial_year(second),
{
}

/// A day that is no number blocks a full date, whatever follows it.
pub proof fn law_invalid_day_blocks(token: Seq<char>)
    requires
        token.len() == 9,
        parse_u16_spec(token.subrange(0, 2)) is None,
    ensures
        financial_year(token) == Err::<u16, ResolveError>(ResolveError::InvalidDay),
{
}

/// A token whose length is none of 6, 7 and 9 is unrecognized.
pub proof fn law_unrecognized_length(token: Seq<char>)
    requires
        token.len() != 6,
        token.len() != 7,
        token.len() != 9,
    ensures
        financial_year(token) == Err::<u16, ResolveError>(ResolveError::UnrecognizedFormat),
{
}

/// Each error of a token comes from the encoding of its length, and a year
/// is at most 10000.
pub proof fn law_errors_by_length(token: Seq<char>)
    ensures
        financial_year(token) == Err::<u16, ResolveError>(ResolveError::UnrecognizedFormat)
            <==> token.len() != 6 && token.len() != 7 && token.len() != 9,
        financial_year(token) == Err::<u16, ResolveError>(ResolveError::InvalidFormat)
            ==> token.len() == 6,
        financial_year(token) == Err::<u16, ResolveError>(ResolveError::InvalidDay)
            ==> token.len() == 9,
        financial_year(token) == Err::<u16, ResolveError>(ResolveError::InvalidYear)
            ==> token.len() == 7 || token.len() == 9,
        financial_year(token) == Err::<u16, ResolveError>(ResolveError::UnknownMonth)
            ==> token.len() == 7 || token.len() == 9,
        financial_year(token) matches Ok(year) ==> year <= 10000,
{
    if token.len() == 7 {
        lemma_field_bound(token.subrange(3, 7));
    } else if token.len() == 9 {
        lemma_field_bound(token.subrange(2, 9).subrange(3, 7));
    } else if token.len() == 6 {
        lemma_field_bound(token.subrange(0, 4));
    }
}

/// A stem without a separator has itself as its only segment.
pub proof fn lemma_segments_of_plain_stem(stem: Seq<char>)
    requires
        forall|i: int| 0 <= i < stem.len() ==> stem[i] != SEPARATOR,
    ensures
        segments(stem) == seq![stem],
    decreases stem.len(),
{
    if stem.len() == 0 {
        assert(stem =~= Seq::<char>::empty());
    } else {
        lemma_segments_of_plain_stem(stem.drop_last());
        let before = segments(stem.drop_last());
        assert(before.drop_last().push(before.last().push(stem.last())) =~= seq![stem]) by {
            assert(before.last().push(stem.last()) =~= stem);
        }
    }
}

/// A stem that is not empty and holds no separator is its own token.
pub proof fn law_plain_stem_is_token(stem: Seq<char>)
    requires
        stem.len() > 0,
        forall|i: int| 0 <= i < stem.len() ==> stem[i] != SEPARATOR,
    ensures
        token_of(stem) == Some(stem),
{
    lemma_segments_of_plain_stem(stem);
    assert(seq![stem].last() == stem);
}

/// Whether the characters of `stem` from `start` up to `end` are its last
/// run without a separator: the run is not empty, it starts at the stem's
/// start or behind a separator, and only separators follow it.
pub open spec fn is_last_run(stem: Seq<char>, start: int, end: int) -> bool {
    &&& 0 <= start < end <= stem.len()
    &&& forall|i: int| start <= i < end ==> stem[i] != SEPARATOR
    &&& start == 0 || stem[start - 1] == SEPARATOR
    &&& forall|i: int| end <= i < stem.len() ==> stem[i] == SEPARATOR
}

/// Where the last segment of a stem lies, and where its token does.
proof fn lemma_segments_shape(stem: Seq<char>)
    ensures
        segments(stem).len() >= 1,
        segments(stem).last().len() <= stem.len(),
        ({
            let from = stem.len() - segments(stem).last().len();
            &&& segments(stem).last() == stem.subrange(from, stem.len() as int)
            &&& forall|i: int| from <= i < stem.len() ==> stem[i] != SEPARATOR
            &&& from == 0 || stem[from - 1] == SEPARATOR
        }),
        token_of(stem) matches Some(token) ==> exists|start: int, end: int|
            is_last_run(stem, start, end) && stem.subrange(start, end) == token,
        token_of(stem) is None ==> forall|i: int| 0 <= i < stem.len() ==> stem[i] == SEPARATOR,
    decreases stem.len(),
{
    if stem.len() == 0 {
        assert(segments(stem).last() =~= stem.subrange(0, 0));
        assert(segments(stem).drop_last().len() == 0);
        assert(last_non_empty(segments(stem).drop_last()) is None);
    } else {
        let before = stem.drop_last();
        let last = stem.last();
        lemma_segments_shape(before);
        let parts = segments(before);
        let from = before.len() - parts.last().len();
        assert forall|i: int| 0 <= i < before.len() implies stem[i] == before[i] by {}
        if last == SEPARATOR {
            assert(segments(stem).drop_last() =~= parts);
            assert(segments(stem).last() =~= stem.subrange(stem.len() as int, stem.len() as int));
            assert(token_of(stem) == token_of(before));
            if token_of(before) is Some {
                let token = token_of(before)->0;
                let (start, end) = choose|start: int, end: int|
                    is_last_run(before, start, end) && before.subrange(start, end) == token;
                assert(stem.subrange(start, end) =~= before.subrange(start, end));
                assert(is_last_run(stem, start, end));
            }
        } else {
            assert(segments(stem).last() == parts.last().push(last));
            assert(parts.last().push(last) =~= stem.subrange(from, stem.len() as int));
            assert(token_of(stem) == Some(segments(stem).last()));
            assert(is_last_run(stem, from, stem.len() as int));
        }
    }
}

/// The token of a stem is its last run of characters without a separator.
pub proof fn law_token_is_last_run(stem: Seq<char>, start: int, end: int)
    requires
        is_last_run(stem, start, end),
    ensures
        token_of(stem) == Some(stem.subrange(start, end)),
{
    lemma_segments_shape(stem);
    assert(stem[end - 1] != SEPARATOR);
    let token = token_of(stem)->0;
    let (a, b) = choose|a: int, b: int|
        is_last_run(stem, a, b) && stem.subrange(a, b) == token;
    assert(stem[b - 1] != SEPARATOR);
    assert(b == end);
    if a < start {
        assert(stem[start - 1] == SEPARATOR);
    }
    if start < a {
        assert(stem[a - 1] == SEPARATOR);
    }
}

/// A stem has no token exactly when it holds nothing but separators, as
/// the empty stem does.
pub proof fn law_no_token(stem: Seq<char>)
    ensures
        token_of(stem) is None <==> forall|i: int| 0 <= i < stem.len() ==> stem[i] == SEPARATOR,
{
    lemma_segments_shape(stem);
    if token_of(stem) is Some {
        let token = token_of(stem)->0;
        let (a, b) = choose|a: int, b: int|
            is_last_run(stem, a, b) && stem.subrange(a, b) == token;
        assert(stem[a] != SEPARATOR);
    }
}

/// A token is never empty and holds no separator.
pub proof fn law_token_content(stem: Seq<char>)
    ensures
        token_of(stem) matches Some(token) ==> token.len() > 0 && forall|i: int|
            0 <= i < token.len() ==> token[i] != SEPARATOR,
{
    lemma_segments_shape(stem);
    if token_of(stem) is Some {
        let token = token_of(stem)->0;
        let (a, b) = choose|a: int, b: int|
            is_last_run(stem, a, b) && stem.subrange(a, b) == token;
        assert forall|i: int| 0 <= i < token.len() implies token[i] != SEPARATOR by {
            assert(token[i] == stem[a + i]);
        }
    }
}

/// The name of the directory of a four-digit year is a token of that year.
pub proof fn law_directory_names_its_year(fy: u16)
    requires
        1000 <= fy <= 9999,
    ensures
        directory_name_spec(fy).len() == 6,
        financial_year(directory_name_spec(fy)) == Ok::<u16, ResolveError>(fy),
{
    let digits = decimal_digits(fy as nat);
    let name = directory_name_spec(fy);
    lemma_decimal_digits_value(fy as nat);
    lemma_decimal_digits_len(fy as nat);
    reveal_strlit("FY");
    assert(name.subrange(0, 4) =~= digits);
    assert(name.subrange(4, 6) =~= "FY"@);
    assert(unsigned_digits(digits) == digits);
    assert(parse_unsigned(digits) == Some(fy as nat));
}

} // verus!
