//! Bringing HS codes into the form in which they are looked up.

use crate::common::html::{digits_of, keep_digits};
use vstd::prelude::*;

verus! {

/// Matches HS codes against the forbidden list.
pub struct HSCodeMatcher;

impl HSCodeMatcher {
    /// An HS code without blanks and punctuation: its ASCII digits only.
    pub fn clean_hs_code(hs_code: &str) -> (clean: String)
        ensures
            clean@ == digits_of(hs_code@),
    {
        keep_digits(hs_code)
    }
}

} // verus!
