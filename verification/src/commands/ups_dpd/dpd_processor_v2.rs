//! What is fixed about the DPD template when it is filled in place, and the
//! log kept while filling it.

use crate::commands::ups_dpd::dpd_processor::{
    copy_lines, special_postcodes, texts, DpdProcessor,
};
use crate::commands::ups_dpd::field_mappings::{
    dpd_detail_columns, dpd_detail_mappings, dpd_list_columns, dpd_list_mappings,
    dpd_sub_order_columns, dpd_sub_order_mappings,
};
use crate::text_map::{text_values, TextMap};
use vstd::prelude::*;

verus! {

/// Fills the DPD template in place and keeps a log of what it did.
pub struct DpdProcessorV2 {
    logs: Vec<String>,
}

impl DpdProcessorV2 {
    /// The lines logged so far.
    pub closed spec fn lines(&self) -> Seq<String> {
        self.logs@
    }

    /// A processor that has logged nothing.
    pub fn new() -> (processor: Self)
        ensures
            processor.lines().len() == 0,
    {
        Self { logs: Vec::new() }
    }

    /// A copy of the log.
    pub fn get_logs(&self) -> (logs: Vec<String>)
        ensures
            logs@ == self.lines(),
    {
        copy_lines(&self.logs)
    }

    /// Adds a line to the log.
    pub fn log(&mut self, message: String)
        ensures
            final(self).lines() == old(self).lines().push(message),
    {
        self.logs.push(message);
    }

    /// The thirteen German postcodes that are counted on their own.
    pub fn get_de_special_postcodes() -> (codes: Vec<&'static str>)
        ensures
            texts(codes@) == special_postcodes(),
    {
        DpdProcessor::de_special_postcodes()
    }

    /// The columns of the waybill list.
    pub fn get_list_field_mappings() -> (sheet: TextMap<String>)
        ensures
            text_values(sheet@) == dpd_list_columns(),
    {
        dpd_list_mappings()
    }

    /// The columns of the sub-order sheet that come from the detail file.
    pub fn get_sub_order_detail_mappings() -> (sheet: TextMap<String>)
        ensures
            text_values(sheet@) == dpd_detail_columns(),
    {
        dpd_detail_mappings()
    }

    /// The columns of the sub-order sheet that come from the waybill list.
    pub fn get_sub_order_list_mappings() -> (sheet: TextMap<String>)
        ensures
            text_values(sheet@) == dpd_sub_order_columns(),
    {
        dpd_sub_order_mappings()
    }
}

} // verus!
