//! Settings and results of filling carrier templates.

use crate::text::{lowercase_text, str_eq};
use vstd::prelude::*;

verus! {

/// The carrier whose template is filled.
#[derive(Debug, Clone, Copy, PartialEq, Eq, Structural)]
pub enum TemplateType {
    Ups,
    Dpd,
}

impl TemplateType {
    /// The lower-case label of this carrier.
    pub open spec fn label(self) -> Seq<char> {
        match self {
            TemplateType::Ups => "ups"@,
            TemplateType::Dpd => "dpd"@,
        }
    }

    /// The carrier that the lower-case text `s` labels, if any.
    pub open spec fn of_label(s: Seq<char>) -> Option<TemplateType> {
        if s == "ups"@ {
            Some(TemplateType::Ups)
        } else if s == "dpd"@ {
            Some(TemplateType::Dpd)
        } else {
            None
        }
    }

    /// The carrier that `s` labels exactly as written.
    pub fn from_lowercase(s: &str) -> (kind: Option<Self>)
        ensures
            kind == Self::of_label(s@),
    {
        if str_eq(s, "ups") {
            Some(TemplateType::Ups)
        } else if str_eq(s, "dpd") {
            Some(TemplateType::Dpd)
        } else {
            None
        }
    }

    /// The carrier that `s` labels, whatever its letter case.
    pub fn from_string(s: &str) -> (kind: Option<Self>)
        ensures
            kind == Self::of_label(lowercase_text(s@)),
    {
        let lower = s.to_lowercase();
        Self::from_lowercase(lower.as_str())
    }

    /// The label of this carrier.
    pub fn to_string(&self) -> (label: String)
        ensures
            label@ == self.label(),
    {
        match self {
            TemplateType::Ups => String::from_str("ups"),
            TemplateType::Dpd => String::from_str("dpd"),
        }
    }
}

/// A request to fill a carrier's template from one or two source files.
#[derive(Debug, Clone)]
pub struct ProcessRequest {
    pub main_file_path: String,
    pub detail_file_path: Option<String>,
    pub template_type: TemplateType,
}

/// What filling a template reports back.
#[derive(Debug, Clone)]
pub struct ProcessResponse {
    pub success: bool,
    pub output_path: String,
    pub message: String,
    pub logs: Vec<String>,
}

/// Which template file a carrier uses.
#[derive(Debug, Clone)]
pub struct TemplateConfig {
    pub template_type: TemplateType,
    pub template_path: Option<String>,
    pub use_default: bool,
}

impl TemplateConfig {
    /// The configuration a carrier starts with: the built-in template.
    pub fn default_for_type(template_type: TemplateType) -> (config: Self)
        ensures
            config.template_type == template_type,
            config.template_path is None,
            config.use_default,
    {
        TemplateConfig { template_type, template_path: None, use_default: true }
    }
}

/// A column of the source data and the template column it fills.
#[derive(Debug, Clone)]
pub struct FieldMapping {
    pub data_field: String,
    pub template_field: String,
}

impl FieldMapping {
    /// A mapping from a column of the data to a column of the template.
    pub fn new(data_field: &str, template_field: &str) -> (mapping: Self)
        ensures
            mapping.data_field@ == data_field@,
            mapping.template_field@ == template_field@,
    {
        FieldMapping {
            data_field: String::from_str(data_field),
            template_field: String::from_str(template_field),
        }
    }
}

/// The column mappings of one sheet of a template.
#[derive(Debug, Clone)]
pub struct SheetConfig {
    pub sheet_name: String,
    pub mappings: Vec<FieldMapping>,
}

impl SheetConfig {
    /// The mappings of the sheet `sheet_name`.
    pub fn new(sheet_name: &str, mappings: Vec<FieldMapping>) -> (config: Self)
        ensures
            config.sheet_name@ == sheet_name@,
            config.mappings == mappings,
    {
        SheetConfig { sheet_name: String::from_str(sheet_name), mappings }
    }
}

} // verus!
