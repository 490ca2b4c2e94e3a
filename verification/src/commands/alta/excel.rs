//! Finding the column of a sheet that holds the HS codes.

use crate::text::{contains_text, has_text, lowercase_text};
use vstd::prelude::*;

verus! {

/// Checks the HS codes of a whole sheet against the forbidden list.
pub struct ExcelProcessor;

/// A column heading that announces HS codes: in lower case it mentions
/// `hs`, `code`, or one of the Chinese words for customs or code.
pub open spec fn names_hs_codes(header: Seq<char>) -> bool {
    let lower = lowercase_text(header);
    contains_text(lower, "hs"@) || contains_text(lower, "code"@) || contains_text(lower, "海关"@)
        || contains_text(lower, "编码"@) || contains_text(lower, "商品编码"@)
}

/// The index of the first heading that announces HS codes, or the number
/// of headings.
pub open spec fn hs_code_column(headers: Seq<String>) -> int
    decreases headers.len(),
{
    if headers.len() == 0 {
        0
    } else if names_hs_codes(headers[0]@) {
        0
    } else {
        1 + hs_code_column(headers.skip(1))
    }
}

/// Where the first such heading stands is where none before it is one.
pub proof fn lemma_hs_code_column(headers: Seq<String>, at: int)
    requires
        0 <= at <= headers.len(),
        forall|k: int| 0 <= k < at ==> !names_hs_codes(headers[k]@),
        at < headers.len() ==> names_hs_codes(headers[at]@),
    ensures
        hs_code_column(headers) == at,
    decreases headers.len(),
{
    if headers.len() > 0 && at > 0 {
        assert(!names_hs_codes(headers[0]@));
        let rest = headers.skip(1);
        assert forall|k: int| 0 <= k < at - 1 implies !names_hs_codes(rest[k]@) by {
            assert(rest[k] == headers[k + 1]);
        }
        lemma_hs_code_column(rest, at - 1);
    }
}

/// Whether a column heading announces HS codes.
fn announces_hs_codes(header: &str) -> (yes: bool)
    ensures
        yes == names_hs_codes(header@),
{
    let lower = header.to_lowercase();
    has_text(lower.as_str(), "hs") || has_text(lower.as_str(), "code") || has_text(
        lower.as_str(),
        "海关",
    ) || has_text(lower.as_str(), "编码") || has_text(lower.as_str(), "商品编码")
}

impl ExcelProcessor {
    /// The index of the first column whose heading announces HS codes.
    pub fn find_hs_code_column(headers: &Vec<String>) -> (column: Option<usize>)
        ensures
            match column {
                Some(at) => at == hs_code_column(headers@) && at < headers@.len(),
                None => hs_code_column(headers@) == headers@.len(),
            },
    {
        let mut at: usize = 0;
        while at < headers.len() && !announces_hs_codes(headers[at].as_str())
            invariant
                at <= headers@.len(),
                forall|k: int| 0 <= k < at ==> !names_hs_codes(headers@[k]@),
            decreases headers@.len() - at,
        {
            at += 1;
        }
        proof {
            lemma_hs_code_column(headers@, at as int);
        }
        if at < headers.len() {
            Some(at)
        } else {
            None
        }
    }
}

} // verus!
