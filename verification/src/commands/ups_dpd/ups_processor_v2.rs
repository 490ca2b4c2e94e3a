//! What is fixed about the UPS template when it is filled in place, and the
//! log kept while filling it.

use crate::commands::ups_dpd::dpd_processor::copy_lines;
use crate::commands::ups_dpd::field_mappings::{
    ups_sub_order_columns, ups_sub_order_mappings, ups_summary_columns, ups_summary_mappings,
    ups_waybill_columns, ups_waybill_mappings,
};
use crate::text_map::{text_values, TextMap};
use vstd::prelude::*;

verus! {

/// Fills the UPS template in place and keeps a log of what it did.
pub struct UpsProcessorV2 {
    logs: Vec<String>,
}

impl UpsProcessorV2 {
    /// The lines logged so far.
    pub closed spec fn lines(&self) -> Seq<String> {
        self.logs@
    }

    /// A processor that has logged nothing.
    pub fn new() -> (processor: Self)
        ensures
            processor.lines().len() == 0,
    {
        Self { logs: Vec::new() }
    }

    /// A copy of the log.
    pub fn get_logs(&self) -> (logs: Vec<String>)
        ensures
            logs@ == self.lines(),
    {
        copy_lines(&self.logs)
    }

    /// Adds a line to the log.
    pub fn log(&mut self, message: String)
        ensures
            final(self).lines() == old(self).lines().push(message),
    {
        self.logs.push(message);
    }

    /// The columns of the summary sheet.
    pub fn get_summary_field_mappings() -> (sheet: TextMap<String>)
        ensures
            text_values(sheet@) == ups_summary_columns(),
    {
        ups_summary_mappings()
    }

    /// The columns of the waybill sheet.
    pub fn get_waybill_field_mappings() -> (sheet: TextMap<String>)
        ensures
            text_values(sheet@) == ups_waybill_columns(),
    {
        ups_waybill_mappings()
    }

    /// The columns of the sub-order sheet.
    pub fn get_sub_order_field_mappings() -> (sheet: TextMap<String>)
        ensures
            text_values(sheet@) == ups_sub_order_columns(),
    {
        ups_sub_order_mappings()
    }
}

} // verus!
