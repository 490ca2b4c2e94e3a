//! The log kept while filling the UPS template.

use crate::commands::ups_dpd::dpd_processor::copy_lines;
use crate::commands::ups_dpd::field_mappings::{sheets_model, ups_field_mappings, ups_mappings};
use crate::text_map::TextMap;
use vstd::prelude::*;

verus! {

/// Fills the UPS template and keeps a log of what it did.
pub struct UpsProcessor {
    logs: Vec<String>,
}

impl UpsProcessor {
    /// The lines logged so far.
    pub closed spec fn lines(&self) -> Seq<String> {
        self.logs@
    }

    /// A processor that has logged nothing.
    pub fn new() -> (processor: Self)
        ensures
            processor.lines().len() == 0,
    {
        UpsProcessor { logs: Vec::new() }
    }

    /// Adds a line to the log.
    pub fn log(&mut self, message: String)
        ensures
            final(self).lines() == old(self).lines().push(message),
    {
        self.logs.push(message);
    }

    /// The column mappings of the UPS template, sheet by sheet.
    pub fn get_field_mappings() -> (mappings: TextMap<TextMap<String>>)
        ensures
            sheets_model(mappings@) == ups_field_mappings(),
    {
        ups_mappings()
    }

    /// A copy of the log.
    pub fn get_logs(&self) -> (logs: Vec<String>)
        ensures
            logs@ == self.lines(),
    {
        copy_lines(&self.logs)
    }
}

} // verus!
