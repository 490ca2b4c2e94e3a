//! Records of the forbidden-goods lookup.

use vstd::prelude::*;
use vstd::utf8::{encode_utf8, is_char_boundary};

verus! {

/// One forbidden commodity, keyed by its HS code and the code's prefixes.
#[derive(Debug, Clone)]
pub struct ForbiddenItem {
    pub id: Option<i64>,
    pub hs_code: String,
    pub hs_code_4: String,
    pub hs_code_6: String,
    pub hs_code_8: String,
    pub description: String,
    pub additional_info: String,
    pub source_url: String,
    pub created_at: Option<String>,
    /// The HS code as the source wrote it.
    pub raw_text: Option<String>,
    /// Whether the source lists exceptions for this entry.
    pub has_exceptions: Option<bool>,
}

/// An HS code with its four-, six- and eight-character prefixes.
#[derive(Debug, Clone)]
pub struct HsCodeEntry {
    pub code: String,
    pub code_4: String,
    pub code_6: String,
    pub code_8: String,
    pub is_exception: bool,
    pub parent_raw: String,
}

/// The outcome of matching one code against the forbidden list.
#[derive(Debug, Clone)]
pub struct MatchResult {
    pub is_forbidden: bool,
    pub matched_codes: Vec<String>,
    pub descriptions: Vec<String>,
    pub match_type: String,
    pub raw_texts: Vec<Option<String>>,
    pub has_exceptions: Vec<bool>,
}

/// A lookup request; `match_length` is 4, 6 or 8, or absent for an exact match.
#[derive(Debug, Clone)]
pub struct QueryRequest {
    pub hs_code: String,
    pub match_length: Option<u8>,
}

/// The outcome of refreshing the forbidden list.
#[derive(Debug, Clone)]
pub struct UpdateResult {
    pub success: bool,
    pub items_count: usize,
    pub message: String,
}

/// Size and age of the stored forbidden list.
#[derive(Debug, Clone)]
pub struct DatabaseInfo {
    pub total_items: i64,
    pub last_update: Option<String>,
    pub db_size: u64,
}

/// Counts from checking a whole sheet of codes.
#[derive(Debug, Clone)]
pub struct ExcelStats {
    pub total: usize,
    pub forbidden: usize,
    pub safe: usize,
    pub invalid: usize,
    pub output_path: String,
}

/// One forbidden entry that a queried code matched.
#[derive(Debug, Clone)]
pub struct MatchedItem {
    pub code: String,
    pub description: String,
    pub level: u8,
    pub raw_text: Option<String>,
    pub has_exceptions: Option<bool>,
}

/// The answer to one lookup; `status` is `forbidden` or `safe`.
#[derive(Debug, Clone)]
pub struct AltaQueryResult {
    pub code: String,
    pub status: String,
    pub description: String,
    pub matched_items: Option<Vec<MatchedItem>>,
}

/// The first `len` bytes of `code` end between two characters, so that they
/// can be cut off as text; this is asked only where `code` has that many.
pub open spec fn cuts_cleanly(code: Seq<char>, len: int) -> bool {
    encode_utf8(code).len() >= len ==> is_char_boundary(encode_utf8(code), len)
}

/// What cutting `code` down to at most `len` bytes leaves: the text whose
/// encoding is those first bytes, or all of `code` where it is shorter.
pub open spec fn is_cut_of(head: Seq<char>, code: Seq<char>, len: int) -> bool {
    if encode_utf8(code).len() >= len {
        encode_utf8(head) == encode_utf8(code).subrange(0, len)
    } else {
        head == code
    }
}

impl ForbiddenItem {
    /// The first `len` bytes of `code`, or all of `code` where it is shorter.
    pub fn prefix(code: &str, len: usize) -> (head: String)
        requires
            cuts_cleanly(code@, len as int),
        ensures
            is_cut_of(head@, code@, len as int),
    {
        if code.as_bytes().len() >= len {
            let (head, _) = code.split_at(len);
            head.to_owned()
        } else {
            code.to_owned()
        }
    }

    /// An entry in the first format: the three prefixes are cut from the
    /// code, and everything the later format added is absent.
    pub fn new_v1(hs_code: String, description: String, additional_info: String) -> (item: Self)
        requires
            cuts_cleanly(hs_code@, 4),
            cuts_cleanly(hs_code@, 6),
            cuts_cleanly(hs_code@, 8),
        ensures
            item.id is None,
            item.hs_code == hs_code,
            item.description == description,
            item.additional_info == additional_info,
            item.source_url@.len() == 0,
            item.created_at is None,
            item.raw_text is None,
            item.has_exceptions is None,
            is_cut_of(item.hs_code_4@, hs_code@, 4),
            is_cut_of(item.hs_code_6@, hs_code@, 6),
            is_cut_of(item.hs_code_8@, hs_code@, 8),
    {
        let hs_code_4 = Self::prefix(hs_code.as_str(), 4);
        let hs_code_6 = Self::prefix(hs_code.as_str(), 6);
        let hs_code_8 = Self::prefix(hs_code.as_str(), 8);
        Self {
            id: None,
            hs_code,
            hs_code_4,
            hs_code_6,
            hs_code_8,
            description,
            additional_info,
            source_url: String::new(),
            created_at: None,
            raw_text: None,
            has_exceptions: None,
        }
    }

    /// An entry in the later format: the prefixes come from `code`, and a
    /// description of an entry with exceptions is marked as such.
    pub fn new_v2(
        code: HsCodeEntry,
        raw_text: String,
        has_exceptions: bool,
        description: String,
        additional_info: String,
        source_url: String,
    ) -> (item: Self)
        ensures
            item.id is None,
            item.hs_code@ == code.code@,
            item.hs_code_4 == code.code_4,
            item.hs_code_6 == code.code_6,
            item.hs_code_8 == code.code_8,
            item.description@ == (if has_exceptions {
                description@ + " [含例外]"@
            } else {
                description@
            }),
            item.additional_info == additional_info,
            item.source_url == source_url,
            item.created_at is None,
            item.raw_text == Some(raw_text),
            item.has_exceptions == Some(has_exceptions),
    {
        let enhanced_description = if has_exceptions {
            description.concat(" [含例外]")
        } else {
            description
        };
        Self {
            id: None,
            hs_code: code.code.clone(),
            hs_code_4: code.code_4,
            hs_code_6: code.code_6,
            hs_code_8: code.code_8,
            description: enhanced_description,
            additional_info,
            source_url,
            created_at: None,
            raw_text: Some(raw_text),
            has_exceptions: Some(has_exceptions),
        }
    }
}

} // verus!
