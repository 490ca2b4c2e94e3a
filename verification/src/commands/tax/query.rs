//! Bringing the commodity codes that people type into one form.

use crate::common::html::{digits_of, keep_digits};
use vstd::prelude::*;

verus! {

/// The lookup of tariffs by commodity code.
pub struct TaxQuery;

impl TaxQuery {
    /// A commodity code in its plain form: its ASCII digits and nothing else.
    pub fn normalize_code(code: &str) -> (plain: String)
        ensures
            plain@ == digits_of(code@),
    {
        keep_digits(code)
    }
}

} // verus!
