//! From a file stem to its financial year, in one step.

use crate::error::{ClassifyError, ExtractError};
use crate::extractor::{extract, token_of};
use crate::resolver::{financial_year, resolve};
use vstd::prelude::*;

verus! {

/// The financial year of a file stem: that of its token. A stem without a
/// token, and a token that names no year, each give their own error.
pub open spec fn stem_fy(stem: Seq<char>) -> Result<u16, ClassifyError> {
    match token_of(stem) {
        None => Err(ClassifyError::Extract(ExtractError::NoToken)),
        Some(token) => match financial_year(token) {
            Ok(year) => Ok(year),
            Err(e) => Err(ClassifyError::Resolve(e)),
        },
    }
}

/// Classifies a file by its stem: takes the token from the stem and
/// resolves it to a financial year. No year is ever made up: every
/// failure of either step comes back as its error.
pub fn get_fy(stem: &str) -> (r: Result<u16, ClassifyError>)
    ensures
        r == stem_fy(stem@),
{
    match extract(stem) {
        Err(e) => Err(ClassifyError::Extract(e)),
        Ok(token) => match resolve(token) {
            Ok(year) => Ok(year),
            Err(e) => Err(ClassifyError::Resolve(e)),
        },
    }
}

} // verus!
