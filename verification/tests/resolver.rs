use fy_classifier::error::ResolveError;
use fy_classifier::month::get_month_offset;
use fy_classifier::resolver::{
    get_fy_fy_year_only, get_fy_full_date, process_month_and_year, resolve, DateFormat,
};

const FIRST_HALF: [&str; 6] = ["JAN", "FEB", "MAR", "APR", "MAY", "JUN"];
const SECOND_HALF: [&str; 6] = ["JUL", "AUG", "SEP", "OCT", "NOV", "DEC"];

#[test]
fn format_goes_by_length_alone() {
    assert_eq!(DateFormat::from_length(6), DateFormat::YearFY);
    assert_eq!(DateFormat::from_length(7), DateFormat::MonthYear);
    assert_eq!(DateFormat::from_length(9), DateFormat::FullDate);
    for len in [0usize, 1, 2, 3, 4, 5, 8, 10, 11, 100] {
        assert_eq!(DateFormat::from_length(len), DateFormat::Unrecognized);
    }
    assert_eq!(DateFormat::detect("2022FY"), DateFormat::YearFY);
    assert_eq!(DateFormat::detect("??????"), DateFormat::YearFY);
    assert_eq!(DateFormat::detect("JAN2022"), DateFormat::MonthYear);
    assert_eq!(DateFormat::detect("21JAN2022"), DateFormat::FullDate);
    assert_eq!(DateFormat::detect(""), DateFormat::Unrecognized);
    assert_eq!(DateFormat::detect("2022"), DateFormat::Unrecognized);
}

#[test]
fn format_counts_characters() {
    // six characters, nine bytes
    assert_eq!(DateFormat::detect("ééé2FY"), DateFormat::YearFY);
    // five characters, six bytes
    assert_eq!(DateFormat::detect("é20FY"), DateFormat::Unrecognized);
}

#[test]
fn month_offsets_of_the_twelve_codes() {
    for code in FIRST_HALF {
        assert_eq!(get_month_offset(code), Ok(0));
    }
    for code in SECOND_HALF {
        assert_eq!(get_month_offset(code), Ok(1));
    }
}

#[test]
fn month_codes_are_upper_case_and_exact() {
    for code in ["jan", "Jan", "JAn", "NAN", "", "J", "JA", "JANU", "JAN ", " JAN", "JÄN", "123"] {
        assert_eq!(get_month_offset(code), Err(ResolveError::UnknownMonth));
    }
}

#[test]
fn every_four_digit_year_with_fy_is_itself() {
    for year in 0u16..=9999 {
        let token = format!("{:04}FY", year);
        assert_eq!(resolve(&token), Ok(year));
        assert_eq!(get_fy_fy_year_only(&token), Ok(year));
    }
}

#[test]
fn year_only_wants_the_exact_suffix() {
    for token in ["2020fy", "2020Fy", "2020fY", "2020FX", "2020YF", "2020 F", "2020FＹ", "202FYY"] {
        assert_eq!(resolve(token), Err(ResolveError::InvalidFormat));
        assert_eq!(get_fy_fy_year_only(token), Err(ResolveError::InvalidFormat));
    }
}

#[test]
fn year_only_wants_a_number() {
    for token in ["abcdFY", "20a0FY", " 202FY", "202 FY", "-202FY", "2.20FY", "٢٠٢٠FY", "   +FY"] {
        assert_eq!(resolve(token), Err(ResolveError::InvalidFormat));
    }
}

#[test]
fn year_may_carry_a_plus_sign() {
    assert_eq!(resolve("+202FY"), Ok(202));
    assert_eq!(resolve("JAN+202"), Ok(202));
    assert_eq!(resolve("DEC+999"), Ok(1000));
    assert_eq!(resolve("+1JAN2020"), Ok(2020));
}

#[test]
fn month_year_adds_the_offset() {
    for year in [0u16, 1, 999, 1999, 2000, 2022, 9998, 9999] {
        for code in FIRST_HALF {
            let token = format!("{}{:04}", code, year);
            assert_eq!(resolve(&token), Ok(year));
            assert_eq!(process_month_and_year(&token), Ok(year));
        }
        for code in SECOND_HALF {
            let token = format!("{}{:04}", code, year);
            assert_eq!(resolve(&token), Ok(year + 1));
            assert_eq!(process_month_and_year(&token), Ok(year + 1));
        }
    }
}

#[test]
fn largest_year_is_ten_thousand() {
    assert_eq!(resolve("DEC9999"), Ok(10000));
    assert_eq!(resolve("31DEC9999"), Ok(10000));
    assert_eq!(resolve("JUN9999"), Ok(9999));
    assert_eq!(resolve("9999FY"), Ok(9999));
}

#[test]
fn month_year_errors() {
    assert_eq!(resolve("NAN2020"), Err(ResolveError::UnknownMonth));
    assert_eq!(resolve("jan2020"), Err(ResolveError::UnknownMonth));
    assert_eq!(resolve("2020JAN"), Err(ResolveError::UnknownMonth));
    assert_eq!(resolve("JAN20x0"), Err(ResolveError::InvalidYear));
    assert_eq!(resolve("JAN 202"), Err(ResolveError::InvalidYear));
    assert_eq!(resolve("JAN-202"), Err(ResolveError::InvalidYear));
    assert_eq!(resolve("JANabcd"), Err(ResolveError::InvalidYear));
}

#[test]
fn unknown_month_comes_before_invalid_year() {
    assert_eq!(resolve("NANabcd"), Err(ResolveError::UnknownMonth));
    assert_eq!(process_month_and_year("NANabcd"), Err(ResolveError::UnknownMonth));
    assert_eq!(resolve("10NANabcd"), Err(ResolveError::UnknownMonth));
}

#[test]
fn full_date_equals_its_month_year_suffix() {
    let suffixes = [
        "JAN2021", "JUL2022", "DEC9999", "NAN2020", "JANabcd", "jan2020", "MAY0000", "OCT+123",
    ];
    let days = ["01", "10", "21", "31", "00", "99", "+5", "32"];
    for suffix in suffixes {
        for day in days {
            let token = format!("{}{}", day, suffix);
            assert_eq!(resolve(&token), resolve(suffix));
            assert_eq!(get_fy_full_date(&token), process_month_and_year(suffix));
        }
    }
}

#[test]
fn day_is_checked_but_not_used() {
    assert_eq!(resolve("21JAN2021"), Ok(2021));
    assert_eq!(resolve("99JAN2021"), Ok(2021));
    assert_eq!(resolve("00JAN2021"), Ok(2021));
    assert_eq!(resolve("A1JAN2020"), Err(ResolveError::InvalidDay));
    assert_eq!(resolve("1AJAN2020"), Err(ResolveError::InvalidDay));
    assert_eq!(resolve(" 1JAN2020"), Err(ResolveError::InvalidDay));
    assert_eq!(resolve("1 JAN2020"), Err(ResolveError::InvalidDay));
    assert_eq!(resolve("-1JAN2020"), Err(ResolveError::InvalidDay));
    assert_eq!(resolve("++JAN2020"), Err(ResolveError::InvalidDay));
}

#[test]
fn invalid_day_comes_before_the_rest() {
    assert_eq!(resolve("xxNAN2020"), Err(ResolveError::InvalidDay));
    assert_eq!(resolve("xxJANabcd"), Err(ResolveError::InvalidDay));
    assert_eq!(get_fy_full_date("xxNANabcd"), Err(ResolveError::InvalidDay));
}

#[test]
fn other_lengths_are_unrecognized() {
    let mut token = String::new();
    for len in 0..40 {
        if len != 6 && len != 7 && len != 9 {
            assert_eq!(resolve(&token), Err(ResolveError::UnrecognizedFormat));
        } else {
            assert_ne!(resolve(&token), Err(ResolveError::UnrecognizedFormat));
        }
        token.push('2');
    }
    assert_eq!(resolve("text"), Err(ResolveError::UnrecognizedFormat));
    assert_eq!(resolve("2020"), Err(ResolveError::UnrecognizedFormat));
    assert_eq!(resolve("1JAN2020"), Err(ResolveError::UnrecognizedFormat));
    assert_eq!(resolve("001JAN2020"), Err(ResolveError::UnrecognizedFormat));
    assert_eq!(resolve("2020FY "), Err(ResolveError::UnknownMonth));
}

#[test]
fn tokens_beyond_ascii_are_errors() {
    assert_eq!(resolve("é2020F"), Err(ResolveError::InvalidFormat));
    assert_eq!(resolve("ééééFY"), Err(ResolveError::InvalidFormat));
    assert_eq!(resolve("JÄN2020"), Err(ResolveError::UnknownMonth));
    assert_eq!(resolve("JAN２０２０"), Err(ResolveError::InvalidYear));
    assert_eq!(resolve("１０JAN2020"), Err(ResolveError::InvalidDay));
    assert_eq!(resolve("日本語"), Err(ResolveError::UnrecognizedFormat));
}
