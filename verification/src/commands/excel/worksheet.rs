//! The worksheet part: merged regions, column widths, and each cell's style
//! and formula.

use crate::commands::error::CommandError;
use crate::commands::excel::merge_parser::{
    cell_range, cell_reference, parse_cell_range, parse_cell_reference,
};
use crate::commands::excel::styles::{
    resolve_cell_style, resolved_style, CellStyle, CellStyleModel, StylesInfo,
    StylesModel,
};
use crate::commands::excel::xml::{
    attribute_value, complaint_of, document_events, events_model, find_attribute, is_closing,
    is_document, read_events, AttributeModel, EventModel, XmlElement, XmlEvent,
};
use crate::models::excel::MergedRange;
use crate::numeric::{is_decimal, is_decimal_text, parse_u32, u32_value};
use crate::text::{str_eq, text_of, text_of_ref};
use crate::text_map::{lemma_string_values_empty, lemma_string_values_insert, string_values};
use std::collections::HashMap;
use vstd::prelude::*;

verus! {

broadcast use vstd::std_specs::hash::group_hash_axioms;

/// The key under which the cell `(row, col)` is filed.
pub open spec fn cell_key(row: u32, col: u32) -> u64 {
    (row as int * 0x1_0000_0000 + col as int) as u64
}

/// The key under which the cell `(row, col)` is filed.
pub fn key_of(row: u32, col: u32) -> (key: u64)
    ensures
        key == cell_key(row, col),
{
    (row as u64) * 0x1_0000_0000u64 + (col as u64)
}

/// Different cells are filed under different keys.
pub proof fn lemma_cell_key_is_one_to_one(row: u32, col: u32, other_row: u32, other_col: u32)
    ensures
        cell_key(row, col) == cell_key(other_row, other_col) <==> row == other_row && col
            == other_col,
{
}

/// A picture that belongs to a cell.
#[derive(Debug)]
pub struct EmbeddedImage {
    /// The id under which the package knows the picture.
    pub image_id: String,
    /// The picture file's bytes.
    pub data: Vec<u8>,
    /// The picture file's extension, such as `png`.
    pub extension: String,
}

/// What an `EmbeddedImage` says.
pub struct ImageModel {
    pub image_id: Seq<char>,
    pub data: Seq<u8>,
    pub extension: Seq<char>,
}

impl View for EmbeddedImage {
    type V = ImageModel;

    open spec fn view(&self) -> ImageModel {
        ImageModel { image_id: self.image_id@, data: self.data@, extension: self.extension@ }
    }
}

impl Clone for EmbeddedImage {
    fn clone(&self) -> (copy: Self)
        ensures
            copy@ == self@,
    {
        EmbeddedImage {
            image_id: self.image_id.clone(),
            data: self.data.clone(),
            extension: self.extension.clone(),
        }
    }
}

/// The presentation facts of a worksheet.
#[derive(Debug)]
pub struct SheetMetadata {
    pub merged_ranges: Vec<MergedRange>,
    /// The width of each column that has one of its own, as written.
    pub column_widths: HashMap<u32, String>,
    /// The width of every other column, as written.
    pub default_column_width: String,
    /// The style of each cell whose style departs from the default.
    pub cell_styles: HashMap<u64, CellStyle>,
    /// The formula of each cell that has one, with its leading `=`.
    pub cell_formulas: HashMap<u64, String>,
    /// Every cell that has a formula, in the order the sheet lists them.
    pub formula_cells: Vec<(u32, u32)>,
    /// The picture of each cell that shows one.
    pub cell_images: HashMap<u64, EmbeddedImage>,
    /// The pictures that were converted to an accepted format.
    pub converted_images: Vec<String>,
    /// The pictures that were left out.
    pub unsupported_images: Vec<String>,
}

/// A map of styles, read as what the styles say.
pub open spec fn style_values(map: Map<u64, CellStyle>) -> Map<u64, CellStyleModel> {
    map.map_values(|s: CellStyle| s@)
}

/// A map of pictures, read as what the pictures say.
pub open spec fn image_values(map: Map<u64, EmbeddedImage>) -> Map<u64, ImageModel> {
    map.map_values(|i: EmbeddedImage| i@)
}

/// A list of strings, read as texts.
pub open spec fn texts_of(list: Seq<String>) -> Seq<Seq<char>> {
    list.map_values(|s: String| s@)
}

/// Reading a map of styles as what they say goes along with inserting.
pub proof fn lemma_style_values_insert(map: Map<u64, CellStyle>, key: u64, value: CellStyle)
    ensures
        style_values(map.insert(key, value)) == style_values(map).insert(key, value@),
{
    assert(style_values(map.insert(key, value)) =~= style_values(map).insert(key, value@));
}

/// Reading a map of pictures as what they say goes along with inserting.
pub proof fn lemma_image_values_insert(map: Map<u64, EmbeddedImage>, key: u64, value: EmbeddedImage)
    ensures
        image_values(map.insert(key, value)) == image_values(map).insert(key, value@),
{
    assert(image_values(map.insert(key, value)) =~= image_values(map).insert(key, value@));
}

/// What a `SheetMetadata` says.
pub struct MetadataModel {
    pub merged_ranges: Seq<MergedRange>,
    pub column_widths: Map<u32, Seq<char>>,
    pub default_column_width: Seq<char>,
    pub cell_styles: Map<u64, CellStyleModel>,
    pub cell_formulas: Map<u64, Seq<char>>,
    pub cell_images: Map<u64, ImageModel>,
    pub converted_images: Seq<Seq<char>>,
    pub unsupported_images: Seq<Seq<char>>,
}

impl View for SheetMetadata {
    type V = MetadataModel;

    open spec fn view(&self) -> MetadataModel {
        MetadataModel {
            merged_ranges: self.merged_ranges@,
            column_widths: string_values(self.column_widths@),
            default_column_width: self.default_column_width@,
            cell_styles: style_values(self.cell_styles@),
            cell_formulas: string_values(self.cell_formulas@),
            cell_images: image_values(self.cell_images@),
            converted_images: texts_of(self.converted_images@),
            unsupported_images: texts_of(self.unsupported_images@),
        }
    }
}

/// Every key of `formulas` is the key of one of `cells`.
pub open spec fn lists_every_formula(formulas: Map<u64, String>, cells: Seq<(u32, u32)>) -> bool {
    forall|key: u64| #[trigger]
        formulas.contains_key(key) ==> exists|i: int|
            0 <= i < cells.len() && cell_key((#[trigger] cells[i]).0, cells[i].1) == key
}

impl SheetMetadata {
    /// Every cell that has a formula is listed among the formula cells.
    pub open spec fn wf(&self) -> bool {
        lists_every_formula(self.cell_formulas@, self.formula_cells@)
    }
}

/// What a worksheet says before anything is read: the default width of a
/// column is 8.43 characters, and nothing else is known.
pub open spec fn blank_metadata() -> MetadataModel {
    MetadataModel {
        merged_ranges: Seq::empty(),
        column_widths: Map::empty(),
        default_column_width: "8.43"@,
        cell_styles: Map::empty(),
        cell_formulas: Map::empty(),
        cell_images: Map::empty(),
        converted_images: Seq::empty(),
        unsupported_images: Seq::empty(),
    }
}

/// What has been gathered from a worksheet part so far.
pub struct SheetProgress {
    pub metadata: MetadataModel,
    pub in_merge_cells: bool,
    pub in_cols: bool,
    pub in_sheet_data: bool,
    pub in_cell: bool,
    pub in_formula: bool,
    /// The reference, style index and formula text of the open cell.
    pub cell_ref: Option<Seq<char>>,
    pub style_idx: Option<u32>,
    pub formula: Option<Seq<char>>,
    pub done: bool,
    /// The reader's complaint, if it gave up.
    pub failure: Option<Seq<char>>,
}

/// The merged regions, with the one that a `mergeCell` tag names added.
pub open spec fn with_merge(merged: Seq<MergedRange>, attributes: Seq<AttributeModel>) -> Seq<
    MergedRange,
> {
    match attribute_value(attributes, "ref"@) {
        Some(range) => match cell_range(range) {
            Some(r) => merged.push(r),
            None => merged,
        },
        None => merged,
    }
}

/// The default column width, replaced by the one that a `sheetFormatPr` tag
/// gives if it is written as a number.
pub open spec fn with_default_width(width: Seq<char>, attributes: Seq<AttributeModel>) -> Seq<
    char,
> {
    match attribute_value(attributes, "defaultColWidth"@) {
        Some(w) if is_decimal_text(w) => w,
        _ => width,
    }
}

/// An attribute read as an unsigned number.
pub open spec fn number_at(attributes: Seq<AttributeModel>, key: Seq<char>) -> Option<u32> {
    match attribute_value(attributes, key) {
        Some(v) => u32_value(v),
        None => None,
    }
}

/// The columns, counted from one, that run from `min` to `max` get the width `w`.
pub open spec fn widths_set(widths: Map<u32, Seq<char>>, min: u32, max: u32, w: Seq<char>) -> Map<
    u32,
    Seq<char>,
> {
    Map::new(
        |c: u32| widths.contains_key(c) || min <= c + 1 <= max,
        |c: u32|
            if min <= c + 1 <= max {
                w
            } else {
                widths[c]
            },
    )
}

/// The column widths, with those that a `col` tag gives: it needs a first
/// and a last column and a width written as a number.
pub open spec fn with_widths(widths: Map<u32, Seq<char>>, attributes: Seq<AttributeModel>) -> Map<
    u32,
    Seq<char>,
> {
    match (
        number_at(attributes, "min"@),
        number_at(attributes, "max"@),
        attribute_value(attributes, "width"@),
    ) {
        (Some(min), Some(max), Some(w)) if is_decimal_text(w) => widths_set(widths, min, max, w),
        _ => widths,
    }
}

/// A style is worth recording if it departs from the default: it sets a
/// number format other than `General`, or a background.
pub open spec fn is_noteworthy(style: CellStyleModel) -> bool {
    (style.number_format is Some && style.number_format != Some("General"@))
        || style.background_color is Some
}

/// The cell styles, with that of the cell `reference` under style index
/// `index` added if both are there, the reference can be read, and the style
/// is worth recording.
pub open spec fn with_cell_style(
    cell_styles: Map<u64, CellStyleModel>,
    styles: StylesModel,
    reference: Option<Seq<char>>,
    index: Option<u32>,
) -> Map<u64, CellStyleModel> {
    match (reference, index) {
        (Some(r), Some(i)) => match cell_reference(r) {
            Some(cell) if is_noteworthy(resolved_style(styles, i)) => cell_styles.insert(
                cell_key(cell.0, cell.1),
                resolved_style(styles, i),
            ),
            _ => cell_styles,
        },
        _ => cell_styles,
    }
}

/// The cell formulas, with that of the cell `reference` added, behind an
/// `=`, if the reference can be read and the formula is not empty.
pub open spec fn with_formula(
    formulas: Map<u64, Seq<char>>,
    reference: Option<Seq<char>>,
    formula: Option<Seq<char>>,
) -> Map<u64, Seq<char>> {
    match (reference, formula) {
        (Some(r), Some(f)) => match cell_reference(r) {
            Some(cell) if f.len() > 0 => formulas.insert(cell_key(cell.0, cell.1), "="@ + f),
            _ => formulas,
        },
        _ => formulas,
    }
}

/// A reference that can be read as a cell.
pub open spec fn is_readable(reference: Option<Seq<char>>) -> bool {
    match reference {
        Some(r) => cell_reference(r) is Some,
        None => false,
    }
}

/// The effect of an opening tag on the gathering.
pub open spec fn sheet_start(state: SheetProgress, name: Seq<char>, attributes: Seq<AttributeModel>)
    -> SheetProgress {
    if name == "mergeCells"@ {
        SheetProgress { in_merge_cells: true, ..state }
    } else if name == "mergeCell"@ && state.in_merge_cells {
        SheetProgress {
            metadata: MetadataModel {
                merged_ranges: with_merge(state.metadata.merged_ranges, attributes),
                ..state.metadata
            },
            ..state
        }
    } else if name == "cols"@ {
        SheetProgress { in_cols: true, ..state }
    } else if name == "sheetFormatPr"@ {
        SheetProgress {
            metadata: MetadataModel {
                default_column_width: with_default_width(
                    state.metadata.default_column_width,
                    attributes,
                ),
                ..state.metadata
            },
            ..state
        }
    } else if name == "sheetData"@ {
        SheetProgress { in_sheet_data: true, ..state }
    } else if name == "c"@ && state.in_sheet_data {
        SheetProgress {
            in_cell: true,
            cell_ref: attribute_value(attributes, "r"@),
            style_idx: number_at(attributes, "s"@),
            formula: None,
            ..state
        }
    } else if name == "f"@ && state.in_cell {
        SheetProgress { in_formula: true, ..state }
    } else {
        state
    }
}

/// The effect of a self-closing tag on the gathering.
pub open spec fn sheet_empty(
    state: SheetProgress,
    styles: StylesModel,
    name: Seq<char>,
    attributes: Seq<AttributeModel>,
) -> SheetProgress {
    if name == "mergeCell"@ && state.in_merge_cells {
        SheetProgress {
            metadata: MetadataModel {
                merged_ranges: with_merge(state.metadata.merged_ranges, attributes),
                ..state.metadata
            },
            ..state
        }
    } else if name == "col"@ && state.in_cols {
        SheetProgress {
            metadata: MetadataModel {
                column_widths: with_widths(state.metadata.column_widths, attributes),
                ..state.metadata
            },
            ..state
        }
    } else if name == "sheetFormatPr"@ {
        SheetProgress {
            metadata: MetadataModel {
                default_column_width: with_default_width(
                    state.metadata.default_column_width,
                    attributes,
                ),
                ..state.metadata
            },
            ..state
        }
    } else if name == "c"@ && state.in_sheet_data {
        SheetProgress {
            metadata: MetadataModel {
                cell_styles: with_cell_style(
                    state.metadata.cell_styles,
                    styles,
                    attribute_value(attributes, "r"@),
                    number_at(attributes, "s"@),
                ),
                ..state.metadata
            },
            ..state
        }
    } else {
        state
    }
}

/// The effect of a closing tag on the gathering: a cell that closes hands in
/// its style and its formula.
pub open spec fn sheet_end(state: SheetProgress, styles: StylesModel, name: Seq<char>)
    -> SheetProgress {
    if name == "mergeCells"@ {
        SheetProgress { in_merge_cells: false, ..state }
    } else if name == "cols"@ {
        SheetProgress { in_cols: false, ..state }
    } else if name == "sheetData"@ {
        SheetProgress { in_sheet_data: false, ..state }
    } else if name == "c"@ && state.in_cell {
        SheetProgress {
            metadata: MetadataModel {
                cell_styles: with_cell_style(
                    state.metadata.cell_styles,
                    styles,
                    state.cell_ref,
                    state.style_idx,
                ),
                cell_formulas: with_formula(
                    state.metadata.cell_formulas,
                    state.cell_ref,
                    state.formula,
                ),
                ..state.metadata
            },
            in_cell: false,
            cell_ref: None,
            style_idx: None,
            formula: if is_readable(state.cell_ref) {
                None
            } else {
                state.formula
            },
            ..state
        }
    } else if name == "f"@ {
        SheetProgress { in_formula: false, ..state }
    } else {
        state
    }
}

/// One event's effect on the gathering. Text inside a formula tag is the
/// formula; text whose escapes cannot be resolved counts as empty.
pub open spec fn sheet_step(state: SheetProgress, styles: StylesModel, event: EventModel)
    -> SheetProgress {
    if state.done {
        state
    } else {
        match event {
            EventModel::Start(e) => sheet_start(state, e.name, e.attributes),
            EventModel::Empty(e) => sheet_empty(state, styles, e.name, e.attributes),
            EventModel::Text(text) => {
                if state.in_formula {
                    SheetProgress {
                        formula: Some(
                            match text {
                                Some(t) => t,
                                None => Seq::empty(),
                            },
                        ),
                        ..state
                    }
                } else {
                    state
                }
            },
            EventModel::End(name) => sheet_end(state, styles, name),
            EventModel::Eof => SheetProgress { done: true, ..state },
            EventModel::Failed(message) => SheetProgress {
                done: true,
                failure: Some(message),
                ..state
            },
            _ => state,
        }
    }
}

/// What a worksheet part says under the given style tables, event by event
/// from a blank sheet.
pub open spec fn sheet_progress(events: Seq<EventModel>, styles: StylesModel) -> SheetProgress
    decreases events.len(),
{
    if events.len() == 0 {
        SheetProgress {
            metadata: blank_metadata(),
            in_merge_cells: false,
            in_cols: false,
            in_sheet_data: false,
            in_cell: false,
            in_formula: false,
            cell_ref: None,
            style_idx: None,
            formula: None,
            done: false,
            failure: None,
        }
    } else {
        sheet_step(sheet_progress(events.drop_last(), styles), styles, events.last())
    }
}

/// Every style in the map is worth recording.
pub open spec fn all_noteworthy(cell_styles: Map<u64, CellStyleModel>) -> bool {
    forall|key: u64| #[trigger] cell_styles.contains_key(key) ==> is_noteworthy(cell_styles[key])
}

/// Every formula in the map is a non-empty text behind a leading `=`.
pub open spec fn all_led_by_equals(formulas: Map<u64, Seq<char>>) -> bool {
    forall|key: u64| #[trigger]
        formulas.contains_key(key) ==> formulas[key].len() > 1 && formulas[key][0] == '='
}

/// Every recorded style is worth recording, and every recorded formula
/// begins with `=`.
pub open spec fn is_lean(metadata: MetadataModel) -> bool {
    all_noteworthy(metadata.cell_styles) && all_led_by_equals(metadata.cell_formulas)
}

/// Recording a cell's style keeps the recorded styles worth recording.
proof fn lemma_with_cell_style_is_lean(
    cell_styles: Map<u64, CellStyleModel>,
    styles: StylesModel,
    reference: Option<Seq<char>>,
    index: Option<u32>,
)
    requires
        all_noteworthy(cell_styles),
    ensures
        all_noteworthy(with_cell_style(cell_styles, styles, reference, index)),
{
}

/// Recording a cell's formula keeps the recorded formulas led by `=`.
proof fn lemma_with_formula_is_lean(
    formulas: Map<u64, Seq<char>>,
    reference: Option<Seq<char>>,
    formula: Option<Seq<char>>,
)
    requires
        all_led_by_equals(formulas),
    ensures
        all_led_by_equals(with_formula(formulas, reference, formula)),
{
    reveal_strlit("=");
    match (reference, formula) {
        (Some(r), Some(f)) => {
            assert(("="@ + f).len() == f.len() + 1);
            assert(("="@ + f)[0] == '=');
        },
        _ => {},
    }
}

/// One event keeps the gathered facts lean.
proof fn lemma_step_is_lean(state: SheetProgress, styles: StylesModel, event: EventModel)
    requires
        is_lean(state.metadata),
    ensures
        is_lean(sheet_step(state, styles, event).metadata),
{
    if !state.done {
        match event {
            EventModel::Empty(e) => {
                lemma_with_cell_style_is_lean(
                    state.metadata.cell_styles,
                    styles,
                    attribute_value(e.attributes, "r"@),
                    number_at(e.attributes, "s"@),
                );
            },
            EventModel::End(name) => {
                lemma_with_cell_style_is_lean(
                    state.metadata.cell_styles,
                    styles,
                    state.cell_ref,
                    state.style_idx,
                );
                lemma_with_formula_is_lean(
                    state.metadata.cell_formulas,
                    state.cell_ref,
                    state.formula,
                );
            },
            _ => {},
        }
    }
}

/// Whatever a worksheet part holds, only styles that depart from the
/// default are recorded for its cells, and each recorded formula is a
/// non-empty text behind a leading `=`.
pub proof fn lemma_gathered_facts_are_lean(events: Seq<EventModel>, styles: StylesModel)
    ensures
        is_lean(sheet_progress(events, styles).metadata),
    decreases events.len(),
{
    if events.len() > 0 {
        lemma_gathered_facts_are_lean(events.drop_last(), styles);
        lemma_step_is_lean(sheet_progress(events.drop_last(), styles), styles, events.last());
    }
}

/// The message of the error that a malformed worksheet gives.
pub open spec fn sheet_failure_text(complaint: Seq<char>) -> Seq<char> {
    "XML 解析错误: "@ + complaint
}

/// The gathering of a worksheet part, as it runs.
struct SheetState {
    metadata: SheetMetadata,
    in_merge_cells: bool,
    in_cols: bool,
    in_sheet_data: bool,
    in_cell: bool,
    in_formula: bool,
    cell_ref: Option<String>,
    style_idx: Option<u32>,
    formula: Option<String>,
    done: bool,
    failure: Option<String>,
}

impl View for SheetState {
    type V = SheetProgress;

    closed spec fn view(&self) -> SheetProgress {
        SheetProgress {
            metadata: self.metadata@,
            in_merge_cells: self.in_merge_cells,
            in_cols: self.in_cols,
            in_sheet_data: self.in_sheet_data,
            in_cell: self.in_cell,
            in_formula: self.in_formula,
            cell_ref: text_of(self.cell_ref),
            style_idx: self.style_idx,
            formula: text_of(self.formula),
            done: self.done,
            failure: text_of(self.failure),
        }
    }
}

/// Reads an attribute as an unsigned number.
fn read_number(element: &XmlElement, key: &str) -> (n: Option<u32>)
    ensures
        n == number_at(element@.attributes, key@),
{
    match find_attribute(element, key) {
        Some(v) => parse_u32(v.as_str()),
        None => None,
    }
}

/// Adds the region that a `mergeCell` tag names.
fn note_merge(merged: &mut Vec<MergedRange>, element: &XmlElement)
    ensures
        final(merged)@ == with_merge(old(merged)@, element@.attributes),
{
    match find_attribute(element, "ref") {
        Some(range) => match parse_cell_range(range.as_str()) {
            Some(r) => {
                merged.push(r);
            },
            None => {},
        },
        None => {},
    }
}

/// Takes over the default column width that a `sheetFormatPr` tag gives.
fn note_default_width(width: &mut String, element: &XmlElement)
    ensures
        final(width)@ == with_default_width(old(width)@, element@.attributes),
{
    match find_attribute(element, "defaultColWidth") {
        Some(w) => {
            if is_decimal(w.as_str()) {
                *width = w.clone();
            }
        },
        None => {},
    }
}

/// Gives the columns from `min` to `max`, counted from one, the width `w`.
fn set_widths(widths: &mut HashMap<u32, String>, min: u32, max: u32, w: &String)
    ensures
        string_values(final(widths)@) == widths_set(string_values(old(widths)@), min, max, w@),
{
    let ghost before = string_values(widths@);
    if max == 0 || min > max {
        assert(string_values(widths@) =~= widths_set(before, min, max, w@));
        return ;
    }
    let first: u32 = if min == 0 {
        0
    } else {
        min - 1
    };
    let mut c: u32 = first;
    assert(string_values(widths@) =~= Map::new(
        |k: u32| before.contains_key(k) || first <= k < c,
        |k: u32|
            if first <= k < c {
                w@
            } else {
                before[k]
            },
    ));
    while c < max
        invariant
            first <= c <= max,
            first == (if min == 0 {
                0
            } else {
                min - 1
            }),
            min <= max,
            string_values(widths@) == Map::new(
                |k: u32| before.contains_key(k) || first <= k < c,
                |k: u32|
                    if first <= k < c {
                        w@
                    } else {
                        before[k]
                    },
            ),
        decreases max - c,
    {
        let copy = w.clone();
        proof {
            lemma_string_values_insert(widths@, c, copy);
        }
        let ghost prior = string_values(widths@);
        widths.insert(c, copy);
        assert(prior.insert(c, w@) =~= Map::new(
            |k: u32| before.contains_key(k) || first <= k < c + 1,
            |k: u32|
                if first <= k < c + 1 {
                    w@
                } else {
                    before[k]
                },
        ));
        c += 1;
    }
    assert(string_values(widths@) =~= widths_set(before, min, max, w@));
}

/// Takes over the column widths that a `col` tag gives.
fn note_widths(widths: &mut HashMap<u32, String>, element: &XmlElement)
    ensures
        string_values(final(widths)@) == with_widths(
            string_values(old(widths)@),
            element@.attributes,
        ),
{
    let min = read_number(element, "min");
    let max = read_number(element, "max");
    let width = find_attribute(element, "width");
    match (min, max, width) {
        (Some(min), Some(max), Some(w)) => {
            if is_decimal(w.as_str()) {
                set_widths(widths, min, max, w);
            }
        },
        _ => {},
    }
}

/// Whether a style is worth recording.
fn departs_from_default(style: &CellStyle) -> (yes: bool)
    ensures
        yes == is_noteworthy(style@),
{
    let formatted = match &style.number_format {
        Some(code) => !str_eq(code.as_str(), "General"),
        None => false,
    };
    formatted || style.background_color.is_some()
}

/// Records the style of a cell, if it is worth recording.
fn note_cell_style(
    cell_styles: &mut HashMap<u64, CellStyle>,
    styles: &StylesInfo,
    reference: Option<&String>,
    index: Option<u32>,
)
    ensures
        style_values(final(cell_styles)@) == with_cell_style(
            style_values(old(cell_styles)@),
            styles@,
            text_of_ref(reference),
            index,
        ),
{
    match (reference, index) {
        (Some(r), Some(i)) => match parse_cell_reference(r.as_str()) {
            Some(cell) => {
                let style = resolve_cell_style(i, styles);
                if departs_from_default(&style) {
                    proof {
                        lemma_style_values_insert(cell_styles@, cell_key(cell.0, cell.1), style);
                    }
                    cell_styles.insert(key_of(cell.0, cell.1), style);
                }
            },
            None => {},
        },
        _ => {},
    }
}

impl SheetState {
    fn start(&mut self, element: &XmlElement)
        requires
            old(self).metadata.wf(),
        ensures
            final(self)@ == sheet_start(old(self)@, element@.name, element@.attributes),
            final(self).metadata.wf(),
    {
        let name = element.name.as_str();
        if str_eq(name, "mergeCells") {
            self.in_merge_cells = true;
        } else if str_eq(name, "mergeCell") && self.in_merge_cells {
            note_merge(&mut self.metadata.merged_ranges, element);
        } else if str_eq(name, "cols") {
            self.in_cols = true;
        } else if str_eq(name, "sheetFormatPr") {
            note_default_width(&mut self.metadata.default_column_width, element);
        } else if str_eq(name, "sheetData") {
            self.in_sheet_data = true;
        } else if str_eq(name, "c") && self.in_sheet_data {
            self.in_cell = true;
            self.cell_ref = match find_attribute(element, "r") {
                Some(r) => Some(r.clone()),
                None => None,
            };
            self.style_idx = read_number(element, "s");
            self.formula = None;
        } else if str_eq(name, "f") && self.in_cell {
            self.in_formula = true;
        }
    }

    fn empty(&mut self, styles: &StylesInfo, element: &XmlElement)
        requires
            old(self).metadata.wf(),
        ensures
            final(self)@ == sheet_empty(old(self)@, styles@, element@.name, element@.attributes),
            final(self).metadata.wf(),
    {
        let name = element.name.as_str();
        if str_eq(name, "mergeCell") && self.in_merge_cells {
            note_merge(&mut self.metadata.merged_ranges, element);
        } else if str_eq(name, "col") && self.in_cols {
            note_widths(&mut self.metadata.column_widths, element);
        } else if str_eq(name, "sheetFormatPr") {
            note_default_width(&mut self.metadata.default_column_width, element);
        } else if str_eq(name, "c") && self.in_sheet_data {
            let index = read_number(element, "s");
            note_cell_style(
                &mut self.metadata.cell_styles,
                styles,
                find_attribute(element, "r"),
                index,
            );
        }
    }

    /// Hands in the formula of the cell that closes.
    fn note_formula(&mut self)
        requires
            old(self).metadata.wf(),
        ensures
            final(self).metadata.wf(),
            string_values(final(self).metadata.cell_formulas@) == with_formula(
                string_values(old(self).metadata.cell_formulas@),
                text_of(old(self).cell_ref),
                text_of(old(self).formula),
            ),
            text_of(final(self).formula) == (if is_readable(text_of(old(self).cell_ref)) {
                None
            } else {
                text_of(old(self).formula)
            }),
            final(self).metadata.merged_ranges == old(self).metadata.merged_ranges,
            final(self).metadata.column_widths == old(self).metadata.column_widths,
            final(self).metadata.default_column_width == old(self).metadata.default_column_width,
            final(self).metadata.cell_styles == old(self).metadata.cell_styles,
            final(self).metadata.cell_images == old(self).metadata.cell_images,
            final(self).metadata.converted_images == old(self).metadata.converted_images,
            final(self).metadata.unsupported_images == old(self).metadata.unsupported_images,
            final(self).in_merge_cells == old(self).in_merge_cells,
            final(self).in_cols == old(self).in_cols,
            final(self).in_sheet_data == old(self).in_sheet_data,
            final(self).in_cell == old(self).in_cell,
            final(self).in_formula == old(self).in_formula,
            final(self).cell_ref == old(self).cell_ref,
            final(self).style_idx == old(self).style_idx,
            final(self).done == old(self).done,
            final(self).failure == old(self).failure,
    {
        let cell = match &self.cell_ref {
            Some(r) => parse_cell_reference(r.as_str()),
            None => None,
        };
        match cell {
            Some(cell) => {
                match self.formula.take() {
                    Some(f) => {
                        if f.as_str().unicode_len() > 0 {
                            let mut full = String::from_str("=");
                            full.append(f.as_str());
                            let key = key_of(cell.0, cell.1);
                            proof {
                                lemma_string_values_insert(self.metadata.cell_formulas@, key, full);
                            }
                            let ghost cells = self.metadata.formula_cells@;
                            self.metadata.cell_formulas.insert(key, full);
                            self.metadata.formula_cells.push(cell);
                            proof {
                                let listed = self.metadata.formula_cells@;
                                assert(listed[listed.len() - 1] == cell);
                                assert forall|k: u64| #[trigger]
                                    self.metadata.cell_formulas@.contains_key(k) implies exists|
                                    i: int,
                                |
                                    0 <= i < listed.len() && cell_key(
                                        (#[trigger] listed[i]).0,
                                        listed[i].1,
                                    ) == k by {
                                    if k != key {
                                        assert(old(self).metadata.cell_formulas@.contains_key(k));
                                        let i = choose|i: int|
                                            0 <= i < cells.len() && cell_key(
                                                (#[trigger] cells[i]).0,
                                                cells[i].1,
                                            ) == k;
                                        assert(listed[i] == cells[i]);
                                    }
                                }
                            }
                        }
                    },
                    None => {},
                }
            },
            None => {},
        }
    }

    fn end(&mut self, styles: &StylesInfo, name: &str)
        requires
            old(self).metadata.wf(),
        ensures
            final(self)@ == sheet_end(old(self)@, styles@, name@),
            final(self).metadata.wf(),
    {
        if str_eq(name, "mergeCells") {
            self.in_merge_cells = false;
        } else if str_eq(name, "cols") {
            self.in_cols = false;
        } else if str_eq(name, "sheetData") {
            self.in_sheet_data = false;
        } else if str_eq(name, "c") && self.in_cell {
            note_cell_style(
                &mut self.metadata.cell_styles,
                styles,
                self.cell_ref.as_ref(),
                self.style_idx,
            );
            self.note_formula();
            self.in_cell = false;
            self.cell_ref = None;
            self.style_idx = None;
        } else if str_eq(name, "f") {
            self.in_formula = false;
        }
    }

    fn step(&mut self, styles: &StylesInfo, event: &XmlEvent)
        requires
            old(self).metadata.wf(),
        ensures
            final(self)@ == sheet_step(old(self)@, styles@, event@),
            final(self).metadata.wf(),
    {
        if self.done {
            return ;
        }
        match event {
            XmlEvent::Start(element) => {
                self.start(element);
            },
            XmlEvent::Empty(element) => {
                self.empty(styles, element);
            },
            XmlEvent::Text(text) => {
                if self.in_formula {
                    self.formula = Some(
                        match text {
                            Some(t) => t.clone(),
                            None => String::new(),
                        },
                    );
                }
            },
            XmlEvent::End(name) => {
                self.end(styles, name.as_str());
            },
            XmlEvent::Eof => {
                self.done = true;
            },
            XmlEvent::Failed(message) => {
                self.done = true;
                self.failure = Some(message.clone());
            },
            _ => {},
        }
    }
}

impl SheetMetadata {
    /// What is known of a worksheet before anything is read.
    pub fn blank() -> (metadata: Self)
        ensures
            metadata@ == blank_metadata(),
            metadata.wf(),
            metadata.formula_cells@.len() == 0,
    {
        let metadata = SheetMetadata {
            merged_ranges: Vec::new(),
            column_widths: HashMap::new(),
            default_column_width: String::from_str("8.43"),
            cell_styles: HashMap::new(),
            cell_formulas: HashMap::new(),
            formula_cells: Vec::new(),
            cell_images: HashMap::new(),
            converted_images: Vec::new(),
            unsupported_images: Vec::new(),
        };
        proof {
            lemma_string_values_empty::<u32>();
            lemma_string_values_empty::<u64>();
            assert(style_values(metadata.cell_styles@) =~= Map::<u64, CellStyleModel>::empty());
            assert(image_values(metadata.cell_images@) =~= Map::<u64, ImageModel>::empty());
            assert(texts_of(metadata.converted_images@) =~= Seq::<Seq<char>>::empty());
            assert(texts_of(metadata.unsupported_images@) =~= Seq::<Seq<char>>::empty());
        }
        metadata
    }
}

/// Gathers what a worksheet part's events declare, resolving style indexes
/// through `styles`. Malformed text is an error with code `PARSE_ERROR`,
/// whatever was gathered before it.
pub fn metadata_from_events(events: &Vec<XmlEvent>, styles: &StylesInfo) -> (parsed: Result<
    SheetMetadata,
    CommandError,
>)
    ensures
        match parsed {
            Ok(metadata) => sheet_progress(events_model(events@), styles@).failure is None
                && metadata@ == sheet_progress(events_model(events@), styles@).metadata
                && metadata.wf(),
            Err(error) => sheet_progress(events_model(events@), styles@).failure is Some
                && error.code@ == "PARSE_ERROR"@ && error.message@ == sheet_failure_text(
                sheet_progress(events_model(events@), styles@).failure->Some_0,
            ),
        },
{
    let ghost model = events_model(events@);
    let mut state = SheetState {
        metadata: SheetMetadata::blank(),
        in_merge_cells: false,
        in_cols: false,
        in_sheet_data: false,
        in_cell: false,
        in_formula: false,
        cell_ref: None,
        style_idx: None,
        formula: None,
        done: false,
        failure: None,
    };
    let mut i: usize = 0;
    proof {
        assert(model.take(0) == Seq::<EventModel>::empty());
    }
    while i < events.len()
        invariant
            i <= events@.len(),
            model == events_model(events@),
            state@ == sheet_progress(model.take(i as int), styles@),
            state.metadata.wf(),
        decreases events@.len() - i,
    {
        proof {
            assert(model.take(i + 1).drop_last() == model.take(i as int));
            assert(model.take(i + 1).last() == events@[i as int]@);
        }
        state.step(styles, &events[i]);
        i += 1;
    }
    proof {
        assert(model.take(i as int) == model);
    }
    match state.failure {
        Some(complaint) => {
            let mut message = String::from_str("XML 解析错误: ");
            message.append(complaint.as_str());
            Err(CommandError::new(message.as_str(), "PARSE_ERROR"))
        },
        None => Ok(state.metadata),
    }
}

/// Reads a worksheet part into its presentation facts, resolving style
/// indexes through `styles`. The events of the text end with their only
/// `Eof` or `Failed`, so the part fails exactly where the text is malformed.
pub fn parse_metadata_from_xml(xml: &str, styles: &StylesInfo) -> (parsed: Result<
    SheetMetadata,
    CommandError,
>)
    ensures
        is_document(document_events(xml@)),
        match parsed {
            Ok(metadata) => sheet_progress(document_events(xml@), styles@).failure is None
                && metadata@ == sheet_progress(document_events(xml@), styles@).metadata
                && metadata.wf(),
            Err(error) => sheet_progress(document_events(xml@), styles@).failure is Some
                && error.code@ == "PARSE_ERROR"@ && error.message@ == sheet_failure_text(
                sheet_progress(document_events(xml@), styles@).failure->Some_0,
            ),
        },
{
    let events = read_events(xml);
    metadata_from_events(&events, styles)
}

/// Before the event that closes it, a run of events leaves the worksheet
/// open and without a failure.
proof fn lemma_sheet_goes_on(events: Seq<EventModel>, styles: StylesModel)
    requires
        forall|i: int| 0 <= i < events.len() ==> !is_closing(#[trigger] events[i]),
    ensures
        !sheet_progress(events, styles).done,
        sheet_progress(events, styles).failure is None,
    decreases events.len(),
{
    if events.len() > 0 {
        lemma_sheet_goes_on(events.drop_last(), styles);
    }
}

/// A worksheet fails exactly where its text is malformed: the failure of a
/// run of events is the reader's complaint that ends it, and there is none
/// where the run reaches the end of the text.
pub proof fn lemma_sheet_fails_with_the_text(events: Seq<EventModel>, styles: StylesModel)
    requires
        is_document(events),
    ensures
        sheet_progress(events, styles).failure == complaint_of(events.last()),
{
    lemma_sheet_goes_on(events.drop_last(), styles);
}

} // verus!
