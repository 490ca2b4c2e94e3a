//! Settings and results of the sheet transformation.

use crate::text::str_eq;
use vstd::prelude::*;

verus! {

/// Which layout of shipment sheet is being transformed.
#[derive(Debug, Clone, Copy, PartialEq, Eq, Structural)]
pub enum ProcessType {
    SeaRailWithImage,
    SeaRailNoImage,
    AirFreight,
}

impl ProcessType {
    /// The kebab-case label of this layout.
    pub open spec fn label(self) -> Seq<char> {
        match self {
            ProcessType::SeaRailWithImage => "sea-rail-with-image"@,
            ProcessType::SeaRailNoImage => "sea-rail-no-image"@,
            ProcessType::AirFreight => "air-freight"@,
        }
    }

    /// The layout that `s` labels, if any; the first matching label wins.
    pub open spec fn of_label(s: Seq<char>) -> Option<ProcessType> {
        if s == "sea-rail-with-image"@ {
            Some(ProcessType::SeaRailWithImage)
        } else if s == "sea-rail-no-image"@ {
            Some(ProcessType::SeaRailNoImage)
        } else if s == "air-freight"@ {
            Some(ProcessType::AirFreight)
        } else {
            None
        }
    }

    /// The layout that `s` labels.
    pub fn from_string(s: &str) -> (kind: Option<Self>)
        ensures
            kind == Self::of_label(s@),
    {
        if str_eq(s, "sea-rail-with-image") {
            Some(ProcessType::SeaRailWithImage)
        } else if str_eq(s, "sea-rail-no-image") {
            Some(ProcessType::SeaRailNoImage)
        } else if str_eq(s, "air-freight") {
            Some(ProcessType::AirFreight)
        } else {
            None
        }
    }

    /// The label of this layout.
    pub fn to_string(&self) -> (label: String)
        ensures
            label@ == self.label(),
    {
        match self {
            ProcessType::SeaRailWithImage => String::from_str("sea-rail-with-image"),
            ProcessType::SeaRailNoImage => String::from_str("sea-rail-no-image"),
            ProcessType::AirFreight => String::from_str("air-freight"),
        }
    }

    /// Reading a layout's own label gives the layout back.
    pub proof fn lemma_label_round_trip(kind: ProcessType)
        ensures
            Self::of_label(kind.label()) == Some(kind),
    {
        reveal_strlit("sea-rail-with-image");
        reveal_strlit("sea-rail-no-image");
        reveal_strlit("air-freight");
        assert("sea-rail-with-image"@.len() == 19);
        assert("sea-rail-no-image"@.len() == 17);
        assert("air-freight"@.len() == 11);
    }
}

/// Where the columns that the transformation treats specially are.
#[derive(Debug, Clone, Copy)]
pub struct ProcessConfig {
    pub process_type: ProcessType,
    /// One-based index of the weight column.
    pub weight_column: usize,
    /// One-based index of the box-count column.
    pub box_column: usize,
    pub copy_images: bool,
}

impl ProcessConfig {
    /// Both columns are counted from one and fit in 32 bits, and the weight
    /// column has a column before it, where the quantities stand.
    pub open spec fn wf(&self) -> bool {
        2 <= self.weight_column <= 0xffff_ffff && 1 <= self.box_column <= 0xffff_ffff
    }

    /// Whether the columns are set as `wf` asks.
    pub fn is_valid(&self) -> (valid: bool)
        ensures
            valid == self.wf(),
    {
        2 <= self.weight_column && self.weight_column <= 0xffff_ffff && 1 <= self.box_column
            && self.box_column <= 0xffff_ffff
    }

    /// The column settings that a layout starts with: sea and rail sheets
    /// keep weights in column 13 and boxes in column 11, air freight sheets in
    /// columns 15 and 13; only the layout without pictures copies none.
    pub open spec fn default_of(process_type: ProcessType) -> ProcessConfig {
        ProcessConfig {
            process_type,
            weight_column: if process_type == ProcessType::AirFreight {
                15
            } else {
                13
            },
            box_column: if process_type == ProcessType::AirFreight {
                13
            } else {
                11
            },
            copy_images: process_type != ProcessType::SeaRailNoImage,
        }
    }

    /// The column settings that a layout starts with.
    pub fn default_for_type(process_type: ProcessType) -> (config: Self)
        ensures
            config == Self::default_of(process_type),
    {
        match process_type {
            ProcessType::SeaRailWithImage => ProcessConfig {
                process_type,
                weight_column: 13,
                box_column: 11,
                copy_images: true,
            },
            ProcessType::SeaRailNoImage => ProcessConfig {
                process_type,
                weight_column: 13,
                box_column: 11,
                copy_images: false,
            },
            ProcessType::AirFreight => ProcessConfig {
                process_type,
                weight_column: 15,
                box_column: 13,
                copy_images: true,
            },
        }
    }
}

/// A request to transform one workbook.
#[derive(Debug)]
pub struct ProcessRequest {
    pub file_path: String,
    pub config: ProcessConfig,
}

/// What a transformation reports back.
#[derive(Debug)]
pub struct ProcessResponse {
    pub success: bool,
    pub output_path: String,
    pub message: String,
    pub logs: Vec<String>,
}

/// A rectangular block of merged cells, zero-based and inclusive at both ends.
#[derive(Debug, Clone, Copy)]
pub struct MergedRange {
    pub start_row: u32,
    pub start_col: u32,
    pub end_row: u32,
    pub end_col: u32,
}

impl MergedRange {
    /// The cell `(row, col)` lies inside the block.
    pub open spec fn covers(self, row: u32, col: u32) -> bool {
        self.start_row <= row <= self.end_row && self.start_col <= col <= self.end_col
    }

    /// Whether the cell `(row, col)` lies inside the block.
    pub fn contains(&self, row: u32, col: u32) -> (inside: bool)
        ensures
            inside == self.covers(row, col),
    {
        row >= self.start_row && row <= self.end_row && col >= self.start_col && col
            <= self.end_col
    }
}

} // verus!
