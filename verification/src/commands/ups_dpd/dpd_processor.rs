//! What is fixed about the DPD template, and the log kept while filling it.

use crate::commands::ups_dpd::field_mappings::{dpd_field_mappings, dpd_mappings, sheets_model};
use crate::text_map::TextMap;
use vstd::prelude::*;

verus! {

/// Fills the DPD template and keeps a log of what it did.
pub struct DpdProcessor {
    logs: Vec<String>,
}

/// A copy of a list of lines.
pub fn copy_lines(lines: &Vec<String>) -> (copy: Vec<String>)
    ensures
        copy@ == lines@,
{
    let mut copy: Vec<String> = Vec::new();
    let mut i: usize = 0;
    while i < lines.len()
        invariant
            i <= lines@.len(),
            copy@ == lines@.take(i as int),
        decreases lines@.len() - i,
    {
        copy.push(lines[i].clone());
        i += 1;
        assert(lines@.take(i as int) == lines@.take(i - 1).push(lines@[i - 1]));
    }
    assert(lines@.take(lines@.len() as int) == lines@);
    copy
}

/// A list of texts, read as such.
pub open spec fn texts(list: Seq<&'static str>) -> Seq<Seq<char>> {
    list.map_values(|t: &'static str| t@)
}

/// The two-letter codes of the countries that DPD serves.
pub open spec fn served_countries() -> Seq<Seq<char>> {
    seq!["DE"@, "FR"@, "IT"@, "ES"@, "NL"@, "PL"@, "CZ"@, "BE"@]
}

/// The thirteen German postcodes that are counted on their own.
pub open spec fn special_postcodes() -> Seq<Seq<char>> {
    seq![
        "4347"@,
        "6126"@,
        "14656"@,
        "21423"@,
        "36251"@,
        "39171"@,
        "44145"@,
        "47495"@,
        "56068"@,
        "59368"@,
        "67227"@,
        "75177"@,
        "90451"@,
    ]
}

impl DpdProcessor {
    /// The lines logged so far.
    pub closed spec fn lines(&self) -> Seq<String> {
        self.logs@
    }

    /// A processor that has logged nothing.
    pub fn new() -> (processor: Self)
        ensures
            processor.lines().len() == 0,
    {
        DpdProcessor { logs: Vec::new() }
    }

    /// Adds a line to the log.
    pub fn log(&mut self, message: String)
        ensures
            final(self).lines() == old(self).lines().push(message),
    {
        self.logs.push(message);
    }

    /// A copy of the log.
    pub fn get_logs(&self) -> (logs: Vec<String>)
        ensures
            logs@ == self.lines(),
    {
        copy_lines(&self.logs)
    }

    /// The column mappings of the DPD template, sheet by sheet.
    pub fn get_field_mappings() -> (mappings: TextMap<TextMap<String>>)
        ensures
            sheets_model(mappings@) == dpd_field_mappings(),
    {
        dpd_mappings()
    }

    /// The two-letter codes of the countries that DPD serves.
    pub fn supported_countries() -> (codes: Vec<&'static str>)
        ensures
            texts(codes@) == served_countries(),
    {
        let codes = vec!["DE", "FR", "IT", "ES", "NL", "PL", "CZ", "BE"];
        assert(texts(codes@) =~= served_countries());
        codes
    }

    /// The thirteen German postcodes that are counted on their own.
    pub fn de_special_postcodes() -> (codes: Vec<&'static str>)
        ensures
            texts(codes@) == special_postcodes(),
    {
        let codes = vec![
            "4347",
            "6126",
            "14656",
            "21423",
            "36251",
            "39171",
            "44145",
            "47495",
            "56068",
            "59368",
            "67227",
            "75177",
            "90451",
        ];
        assert(texts(codes@) =~= special_postcodes());
        codes
    }
}

} // verus!
