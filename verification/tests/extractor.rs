use fy_classifier::error::ExtractError;
use fy_classifier::extractor::{extract, SEPARATOR};

#[test]
fn separator_is_the_underscore() {
    assert_eq!(SEPARATOR, '_');
}

#[test]
fn token_is_the_last_segment() {
    assert_eq!(extract("text_21JAN2021"), Ok("21JAN2021"));
    assert_eq!(extract("text_more_10MAY2020"), Ok("10MAY2020"));
    assert_eq!(extract("text_other_2015fy"), Ok("2015fy"));
    assert_eq!(extract("a_b"), Ok("b"));
    assert_eq!(extract("_b"), Ok("b"));
}

#[test]
fn stem_without_separator_is_its_own_token() {
    for stem in ["text", "14SEP2022", "2020FY", "x", "with space", "with.dot", "with-dash", "日本語"] {
        assert_eq!(extract(stem), Ok(stem));
    }
}

#[test]
fn empty_segments_are_passed_over() {
    assert_eq!(extract("text_2020FY_"), Ok("2020FY"));
    assert_eq!(extract("text_2020FY__"), Ok("2020FY"));
    assert_eq!(extract("text__2020FY"), Ok("2020FY"));
    assert_eq!(extract("__text___"), Ok("text"));
    assert_eq!(extract("a_"), Ok("a"));
}

#[test]
fn stem_of_nothing_but_separators_has_no_token() {
    assert_eq!(extract(""), Err(ExtractError::NoToken));
    assert_eq!(extract("_"), Err(ExtractError::NoToken));
    assert_eq!(extract("__"), Err(ExtractError::NoToken));
    assert_eq!(extract("_______"), Err(ExtractError::NoToken));
}

#[test]
fn content_of_the_token_is_not_looked_at() {
    assert_eq!(extract("text_!?"), Ok("!?"));
    assert_eq!(extract("text_ "), Ok(" "));
    assert_eq!(extract("é_ü"), Ok("ü"));
    assert_eq!(extract("é＿ü"), Ok("é＿ü"));
    assert_eq!(extract("日本_語_"), Ok("語"));
}

#[test]
fn extract_agrees_with_splitting_on_short_stems() {
    let alphabet = ['_', 'a', 'é', '2'];
    let mut stems: Vec<String> = vec![String::new()];
    let mut from = 0;
    for _ in 0..7 {
        let to = stems.len();
        for i in from..to {
            for c in alphabet {
                let mut s = stems[i].clone();
                s.push(c);
                stems.push(s);
            }
        }
        from = to;
    }
    for stem in &stems {
        let mut expected: Option<&str> = None;
        for segment in stem.split('_') {
            if !segment.is_empty() {
                expected = Some(segment);
            }
        }
        assert_eq!(extract(stem).ok(), expected);
        assert_eq!(extract(stem).is_err(), stem.chars().all(|c| c == '_'));
    }
}
