//! The transformation itself: what each cell of the rewritten sheet holds.

use crate::commands::error::{CommandError, ErrorModel};
use crate::commands::excel::merge_parser::{package_metadata, parse_sheet_metadata};
use crate::commands::excel::reader::ExcelSheet;
use crate::commands::excel::styles::{CellStyle, CellStyleModel};
use crate::commands::excel::weights::{
    all_region_weights, distributed_weight, last_to_reach, lemma_last_region_decides,
    lone_weight, precompute_weight_distributions, round_share,
};
use crate::commands::excel::worksheet::{
    cell_key, key_of, EmbeddedImage, ImageModel, MetadataModel, SheetMetadata,
};
use crate::commands::excel::writer::{
    actions_model, amount_value, background_of, content_of, create_format_with_style,
    create_weight_format, embed_image_to_cell, house_format, image_complaint, image_of,
    number_format_of, set_column_width, set_row_height, sniffed_value, style_of,
    two_decimal_text, write_cell, write_without_picture, ActionModel, CellFormat, CellValue,
    ContentModel, FormatModel, StyledCellValue, StyledModel, ValueModel, WriteAction,
};
use crate::models::excel::{MergedRange, ProcessConfig, ProcessResponse, ProcessType};
use crate::numeric::{decimal_text, u64_to_text};
use crate::text::text_of;
use crate::text::{contains_text, has_text};
use crate::text_map::{byte_values, TextMap};
use std::collections::HashMap;
use vstd::prelude::*;

verus! {

broadcast use vstd::std_specs::hash::group_hash_axioms;

/// The index of the first region that covers `(row, col)`, or the number
/// of regions.
pub open spec fn covering_index(ranges: Seq<MergedRange>, row: u32, col: u32) -> int
    decreases ranges.len(),
{
    if ranges.len() == 0 {
        0
    } else if ranges[0].covers(row, col) {
        0
    } else {
        1 + covering_index(ranges.skip(1), row, col)
    }
}

/// The first region that covers `(row, col)`.
pub open spec fn covering_region(ranges: Seq<MergedRange>, row: u32, col: u32) -> Option<
    MergedRange,
> {
    if covering_index(ranges, row, col) < ranges.len() {
        Some(ranges[covering_index(ranges, row, col)])
    } else {
        None
    }
}

/// Where the first covering region stands is where none before it covers.
pub proof fn lemma_covering_index(ranges: Seq<MergedRange>, row: u32, col: u32, at: int)
    requires
        0 <= at <= ranges.len(),
        forall|k: int| 0 <= k < at ==> !ranges[k].covers(row, col),
        at < ranges.len() ==> ranges[at].covers(row, col),
    ensures
        covering_index(ranges, row, col) == at,
    decreases ranges.len(),
{
    if ranges.len() > 0 && at > 0 {
        assert(!ranges[0].covers(row, col));
        let rest = ranges.skip(1);
        assert forall|k: int| 0 <= k < at - 1 implies !rest[k].covers(row, col) by {
            assert(rest[k] == ranges[k + 1]);
        }
        lemma_covering_index(rest, row, col, at - 1);
    }
}

/// Finds the merged region that the cell `(row, col)` belongs to: the first
/// one that covers it.
pub fn find_merged_range(row: u32, col: u32, merged_ranges: &Vec<MergedRange>) -> (found: Option<
    MergedRange,
>)
    ensures
        found == covering_region(merged_ranges@, row, col),
{
    let mut at: usize = 0;
    while at < merged_ranges.len() && !merged_ranges[at].contains(row, col)
        invariant
            at <= merged_ranges@.len(),
            forall|k: int| 0 <= k < at ==> !merged_ranges@[k].covers(row, col),
        decreases merged_ranges@.len() - at,
    {
        at += 1;
    }
    proof {
        lemma_covering_index(merged_ranges@, row, col, at as int);
    }
    if at < merged_ranges.len() {
        Some(merged_ranges[at])
    } else {
        None
    }
}

/// What `map` holds under `key`, if anything.
pub open spec fn lookup<V>(map: Map<u64, V>, key: u64) -> Option<V> {
    if map.contains_key(key) {
        Some(map[key])
    } else {
        None
    }
}

/// The first of two optional values that is there.
pub open spec fn or_else<V>(first: Option<V>, second: Option<V>) -> Option<V> {
    match first {
        Some(v) => Some(v),
        None => second,
    }
}

/// A formula whose only effect is to show a picture.
pub open spec fn is_display_formula(formula: Seq<char>) -> bool {
    contains_text(formula, "DISPIMG"@)
}

/// A formula that computes something, if `formula` is one.
pub open spec fn computing(formula: Option<Seq<char>>) -> Option<Seq<char>> {
    match formula {
        Some(f) if !is_display_formula(f) => Some(f),
        _ => None,
    }
}

/// The text of the cell `(row, col)` of `sheet`.
pub open spec fn text_at(sheet: ExcelSheet, row: u32, col: u32) -> Option<Seq<char>> {
    text_of(sheet.text_at(row, col))
}

/// A cell with a value and a style, and nothing else.
pub open spec fn plain(value: ValueModel, style: Option<CellStyleModel>) -> StyledModel {
    StyledModel { value, style, is_weight_cell: false, image: None }
}

/// A cell that shows a picture.
pub open spec fn pictured(style: Option<CellStyleModel>, image: ImageModel) -> StyledModel {
    StyledModel { value: ValueModel::Empty, style, is_weight_cell: false, image: Some(image) }
}

/// What the cell `(row, col)` of the rewritten sheet holds, being part of
/// the merged region `range`.
///
/// In the weight column it holds the weight shared out to its row, or the
/// amount it had, as the weight of a row that shares with no other, where
/// none was shared out; either is shown with two decimals. In the
/// box column the region's first row keeps the amount of the region's first
/// cell and every other row holds zero, so that the boxes are not counted
/// twice. Elsewhere it shows its own picture or that of the region's first
/// cell, else its own computing formula or that of the first cell, else the
/// value of the first cell.
pub open spec fn merged_output(
    sheet: ExcelSheet,
    metadata: MetadataModel,
    weight_col: u32,
    box_col: u32,
    weights: Map<u64, i64>,
    range: MergedRange,
    row: u32,
    col: u32,
) -> StyledModel {
    let own = cell_key(row, col);
    let first = cell_key(range.start_row, range.start_col);
    let own_style = lookup(metadata.cell_styles, own);
    let first_style = or_else(lookup(metadata.cell_styles, first), own_style);
    if col == weight_col {
        StyledModel {
            value: ValueModel::Number(
                two_decimal_text(
                    match lookup(weights, own) {
                        Some(w) => w,
                        None => match sheet.amount_at(row, col) {
                            Some(a) => lone_weight(a as int),
                            None => 0,
                        },
                    },
                ),
            ),
            style: first_style,
            is_weight_cell: true,
            image: None,
        }
    } else if col == box_col {
        plain(
            if row == range.start_row {
                amount_value(sheet.amount_at(range.start_row, range.start_col))
            } else {
                ValueModel::Integer(0)
            },
            lookup(metadata.cell_styles, cell_key(range.start_row, col)),
        )
    } else {
        match lookup(metadata.cell_images, own) {
            Some(image) => pictured(own_style, image),
            None => match lookup(metadata.cell_images, first) {
                Some(image) => pictured(first_style, image),
                None => match computing(lookup(metadata.cell_formulas, own)) {
                    Some(f) => plain(ValueModel::Formula(f), own_style),
                    None => match computing(lookup(metadata.cell_formulas, first)) {
                        Some(f) => plain(ValueModel::Formula(f), first_style),
                        None => plain(
                            sniffed_value(text_at(sheet, range.start_row, range.start_col)),
                            first_style,
                        ),
                    },
                },
            },
        }
    }
}

/// In the box column, a merged region counts its boxes once: its first row
/// keeps the amount of the region's first cell, and each of its other rows
/// holds the integer zero.
pub proof fn lemma_boxes_count_once(
    sheet: ExcelSheet,
    metadata: MetadataModel,
    weight_col: u32,
    box_col: u32,
    weights: Map<u64, i64>,
    range: MergedRange,
    row: u32,
)
    requires
        box_col != weight_col,
    ensures
        merged_output(sheet, metadata, weight_col, box_col, weights, range, row, box_col).value
            == (if row == range.start_row {
            amount_value(sheet.amount_at(range.start_row, range.start_col))
        } else {
            ValueModel::Integer(0)
        }),
        merged_output(sheet, metadata, weight_col, box_col, weights, range, row, box_col).image is None,
        !merged_output(
            sheet,
            metadata,
            weight_col,
            box_col,
            weights,
            range,
            row,
            box_col,
        ).is_weight_cell,
{
}

/// What the cell `(row, col)` of the rewritten sheet holds, being part of
/// no merged region: its picture; else its formula, or nothing where the
/// formula would only show a picture that is not there; else its value.
pub open spec fn unmerged_output(sheet: ExcelSheet, metadata: MetadataModel, row: u32, col: u32)
    -> StyledModel {
    let own = cell_key(row, col);
    let style = lookup(metadata.cell_styles, own);
    match lookup(metadata.cell_images, own) {
        Some(image) => pictured(style, image),
        None => match lookup(metadata.cell_formulas, own) {
            Some(f) => if is_display_formula(f) {
                plain(ValueModel::Empty, style)
            } else {
                plain(ValueModel::Formula(f), style)
            },
            None => plain(sniffed_value(text_at(sheet, row, col)), style),
        },
    }
}

/// What the cell `(row, col)` of the rewritten sheet holds.
pub open spec fn output_cell(
    sheet: ExcelSheet,
    metadata: MetadataModel,
    weight_col: u32,
    box_col: u32,
    weights: Map<u64, i64>,
    row: u32,
    col: u32,
) -> StyledModel {
    match covering_region(metadata.merged_ranges, row, col) {
        Some(range) => merged_output(sheet, metadata, weight_col, box_col, weights, range, row, col),
        None => unmerged_output(sheet, metadata, row, col),
    }
}

/// The style recorded for the cell under `key`.
fn style_at(metadata: &SheetMetadata, key: u64) -> (style: Option<CellStyle>)
    ensures
        style_of(style) == lookup(metadata@.cell_styles, key),
{
    match metadata.cell_styles.get(&key) {
        Some(s) => Some(s.clone()),
        None => None,
    }
}

/// The picture recorded for the cell under `key`.
fn image_at(metadata: &SheetMetadata, key: u64) -> (image: Option<EmbeddedImage>)
    ensures
        image_of(image) == lookup(metadata@.cell_images, key),
{
    match metadata.cell_images.get(&key) {
        Some(i) => Some(i.clone()),
        None => None,
    }
}

/// The computing formula recorded for the cell under `key`.
fn computing_formula_at(metadata: &SheetMetadata, key: u64) -> (formula: Option<String>)
    ensures
        text_of(formula) == computing(lookup(metadata@.cell_formulas, key)),
{
    match metadata.cell_formulas.get(&key) {
        Some(f) => {
            if has_text(f.as_str(), "DISPIMG") {
                None
            } else {
                Some(f.clone())
            }
        },
        None => None,
    }
}

/// Where some region covers a cell, a first one does.
pub proof fn lemma_covered_cell_has_a_region(
    ranges: Seq<MergedRange>,
    row: u32,
    col: u32,
    at: int,
)
    requires
        0 <= at < ranges.len(),
        ranges[at].covers(row, col),
    ensures
        0 <= covering_index(ranges, row, col) < ranges.len(),
        covering_region(ranges, row, col) is Some,
        covering_region(ranges, row, col)->Some_0.covers(row, col),
    decreases ranges.len(),
{
    if !ranges[0].covers(row, col) {
        let rest = ranges.skip(1);
        assert(rest[at - 1] == ranges[at]);
        lemma_covered_cell_has_a_region(rest, row, col, at - 1);
        let first = covering_index(rest, row, col);
        assert(rest[first] == ranges[first + 1]);
    }
}

/// In the weight column, a cell of a merged region holds the weight that
/// the region shares out to its row, written with two decimals, is marked
/// as a weight and shows no picture. Where regions overlap, the last one to
/// reach the cell is the one that counts. In a sheet that is a rectangle,
/// a weight column that holds an amount lies within the sheet's width.
pub proof fn lemma_weight_cell_of_a_region(
    sheet: ExcelSheet,
    metadata: MetadataModel,
    weight_col: u32,
    box_col: u32,
    at: int,
    row: u32,
)
    requires
        last_to_reach(metadata.merged_ranges, at, row, weight_col),
    ensures
        ({
            let cell = output_cell(
                sheet,
                metadata,
                weight_col,
                box_col,
                all_region_weights(sheet, metadata.merged_ranges, weight_col),
                row,
                weight_col,
            );
            &&& cell.value == ValueModel::Number(
                two_decimal_text(
                    distributed_weight(sheet, metadata.merged_ranges[at], weight_col, row),
                ),
            )
            &&& cell.is_weight_cell
            &&& cell.image is None
        }),
        sheet.wf() && sheet.amount_at(row, weight_col) is Some ==> weight_col < sheet.width,
{
    lemma_covered_cell_has_a_region(metadata.merged_ranges, row, weight_col, at);
    lemma_last_region_decides(sheet, metadata.merged_ranges, weight_col, at, row);
}

/// Works out what a cell inside a merged region holds.
pub fn process_merged_cell(
    sheet: &ExcelSheet,
    row_idx: u32,
    col_idx: u32,
    merged_range: &MergedRange,
    weight_col: u32,
    box_col: u32,
    weight_distributions: &HashMap<u64, i64>,
    metadata: &SheetMetadata,
) -> (cell: StyledCellValue)
    ensures
        cell@ == merged_output(
            *sheet,
            metadata@,
            weight_col,
            box_col,
            weight_distributions@,
            *merged_range,
            row_idx,
            col_idx,
        ),
{
    let own = key_of(row_idx, col_idx);
    let first = key_of(merged_range.start_row, merged_range.start_col);
    let own_style = style_at(metadata, own);
    if col_idx == weight_col {
        let first_style = match style_at(metadata, first) {
            Some(s) => Some(s),
            None => own_style,
        };
        let weight: i64 = match weight_distributions.get(&own) {
            Some(w) => *w,
            None => match sheet.get_amount(row_idx, col_idx) {
                Some(a) => round_share(a, 1, 1),
                None => 0,
            },
        };
        return StyledCellValue::weight(weight, first_style);
    }
    if col_idx == box_col {
        let style = style_at(metadata, key_of(merged_range.start_row, col_idx));
        let value = if row_idx == merged_range.start_row {
            CellValue::from_amount(
                sheet.get_amount(merged_range.start_row, merged_range.start_col),
            )
        } else {
            CellValue::Integer(0)
        };
        return StyledCellValue::new(value, style);
    }
    match image_at(metadata, own) {
        Some(image) => {
            return StyledCellValue::with_image(CellValue::Empty, own_style, image);
        },
        None => {},
    }
    let ghost own_model = style_of(own_style);
    let first_style = match style_at(metadata, first) {
        Some(s) => Some(s),
        None => match &own_style {
            Some(s) => Some(s.clone()),
            None => None,
        },
    };
    assert(style_of(first_style) == or_else(lookup(metadata@.cell_styles, first), own_model));
    match image_at(metadata, first) {
        Some(image) => {
            return StyledCellValue::with_image(CellValue::Empty, first_style, image);
        },
        None => {},
    }
    match computing_formula_at(metadata, own) {
        Some(f) => {
            return StyledCellValue::new(CellValue::Formula(f), own_style);
        },
        None => {},
    }
    match computing_formula_at(metadata, first) {
        Some(f) => {
            return StyledCellValue::new(CellValue::Formula(f), first_style);
        },
        None => {},
    }
    let value = CellValue::from_string(
        sheet.get_string(merged_range.start_row, merged_range.start_col),
    );
    StyledCellValue::new(value, first_style)
}

/// Works out what a cell outside every merged region holds.
pub fn process_plain_cell(sheet: &ExcelSheet, row_idx: u32, col_idx: u32, metadata: &SheetMetadata)
    -> (cell: StyledCellValue)
    ensures
        cell@ == unmerged_output(*sheet, metadata@, row_idx, col_idx),
{
    let own = key_of(row_idx, col_idx);
    let style = style_at(metadata, own);
    match image_at(metadata, own) {
        Some(image) => {
            return StyledCellValue::with_image(CellValue::Empty, style, image);
        },
        None => {},
    }
    match metadata.cell_formulas.get(&own) {
        Some(f) => {
            if has_text(f.as_str(), "DISPIMG") {
                StyledCellValue::new(CellValue::Empty, style)
            } else {
                StyledCellValue::new(CellValue::Formula(f.clone()), style)
            }
        },
        None => StyledCellValue::new(CellValue::from_string(sheet.get_string(row_idx, col_idx)), style),
    }
}

/// Works out what the cell `(row_idx, col_idx)` of the rewritten sheet holds.
pub fn process_cell(
    sheet: &ExcelSheet,
    row_idx: u32,
    col_idx: u32,
    weight_col: u32,
    box_col: u32,
    weight_distributions: &HashMap<u64, i64>,
    metadata: &SheetMetadata,
) -> (cell: StyledCellValue)
    ensures
        cell@ == output_cell(
            *sheet,
            metadata@,
            weight_col,
            box_col,
            weight_distributions@,
            row_idx,
            col_idx,
        ),
{
    match find_merged_range(row_idx, col_idx, &metadata.merged_ranges) {
        Some(range) => process_merged_cell(
            sheet,
            row_idx,
            col_idx,
            &range,
            weight_col,
            box_col,
            weight_distributions,
            metadata,
        ),
        None => process_plain_cell(sheet, row_idx, col_idx, metadata),
    }
}

/// Among the first `limit` rows, the number of rows before the first one
/// whose first column is blank.
pub open spec fn leading_rows(sheet: ExcelSheet, limit: nat) -> nat
    decreases limit,
{
    if limit == 0 {
        0
    } else if leading_rows(sheet, (limit - 1) as nat) == limit - 1 && !sheet.blank_at(
        (limit - 1) as u32,
        0,
    ) {
        limit
    } else {
        leading_rows(sheet, (limit - 1) as nat)
    }
}

/// The number of data rows: the rows before the first one whose first
/// column is blank, which ends the data whatever stands below it.
pub open spec fn data_rows(sheet: ExcelSheet) -> nat {
    leading_rows(sheet, sheet.height() as nat)
}

/// There are no more leading rows than rows.
pub proof fn lemma_leading_rows_bound(sheet: ExcelSheet, limit: nat)
    ensures
        leading_rows(sheet, limit) <= limit,
    decreases limit,
{
    if limit > 0 {
        lemma_leading_rows_bound(sheet, (limit - 1) as nat);
    }
}

/// Once a row with a blank first column is met, no later row counts.
pub proof fn lemma_leading_rows_stop(sheet: ExcelSheet, at: nat, limit: nat)
    requires
        at < limit <= u32::MAX,
        leading_rows(sheet, at) == at,
        sheet.blank_at(at as u32, 0),
    ensures
        leading_rows(sheet, limit) == at,
    decreases limit,
{
    if limit > at + 1 {
        lemma_leading_rows_stop(sheet, at, (limit - 1) as nat);
    }
}

/// A sheet whose first row has a blank first column has no data rows.
pub proof fn lemma_blank_first_row_ends_everything(sheet: ExcelSheet)
    requires
        sheet.blank_at(0, 0),
    ensures
        data_rows(sheet) == 0,
{
    if sheet.height() > 0 {
        lemma_leading_rows_stop(sheet, 0, sheet.height() as nat);
    }
}

/// The line logged when a row with a blank first column ends the data.
pub open spec fn stop_line(row: nat) -> Seq<char> {
    "第 "@ + decimal_text(row) + " 行第一列为空，停止处理"@
}

/// The line logged when all data rows are worked out.
pub open spec fn done_line(rows: nat) -> Seq<char> {
    "处理完成，共 "@ + decimal_text(rows) + " 行数据"@
}

/// What a list of log lines says.
pub open spec fn lines_of(logs: Seq<String>) -> Seq<Seq<char>> {
    logs.map_values(|s: String| s@)
}

/// What the transformation logs: the row that ended the data, if one did,
/// and the number of data rows.
pub open spec fn sheet_log(sheet: ExcelSheet) -> Seq<Seq<char>> {
    if data_rows(sheet) < sheet.height() {
        seq![stop_line(data_rows(sheet) + 1), done_line(data_rows(sheet))]
    } else {
        seq![done_line(data_rows(sheet))]
    }
}

/// The zero-based weight column that a configuration names.
pub open spec fn weight_col_of(config: ProcessConfig) -> u32 {
    (config.weight_column - 1) as u32
}

/// The zero-based box column that a configuration names.
pub open spec fn box_col_of(config: ProcessConfig) -> u32 {
    (config.box_column - 1) as u32
}

/// `grid` is the rewritten sheet: one row for each data row of `sheet`, as
/// wide as `sheet` claims to be, and in each cell what `output_cell` says,
/// with the weights of all merged regions shared out beforehand.
pub open spec fn is_output_of(
    grid: Seq<Vec<StyledCellValue>>,
    sheet: ExcelSheet,
    metadata: MetadataModel,
    config: ProcessConfig,
) -> bool {
    &&& grid.len() == data_rows(sheet)
    &&& forall|row: int|
        0 <= row < grid.len() ==> (#[trigger] grid[row])@.len() == sheet.width
    &&& forall|row: int, col: int|
        0 <= row < grid.len() && 0 <= col < sheet.width ==> (#[trigger] grid[row]@[col])@
            == output_cell(
            sheet,
            metadata,
            weight_col_of(config),
            box_col_of(config),
            all_region_weights(sheet, metadata.merged_ranges, weight_col_of(config)),
            row as u32,
            col as u32,
        )
}

/// Adds a line made of a number between two texts to the log.
fn log_count(logs: &mut Vec<String>, before: &str, count: u64, after: &str)
    ensures
        final(logs)@.len() == old(logs)@.len() + 1,
        final(logs)@.drop_last() == old(logs)@,
        final(logs)@.last()@ == before@ + decimal_text(count as nat) + after@,
{
    let mut line = String::from_str(before);
    line.append(u64_to_text(count).as_str());
    line.append(after);
    logs.push(line);
}

/// Works out one row of the rewritten sheet.
fn process_row(
    sheet: &ExcelSheet,
    row_idx: u32,
    weight_col: u32,
    box_col: u32,
    weights: &HashMap<u64, i64>,
    metadata: &SheetMetadata,
) -> (cells: Vec<StyledCellValue>)
    ensures
        cells@.len() == sheet.width,
        forall|col: int|
            0 <= col < sheet.width ==> (#[trigger] cells@[col])@ == output_cell(
                *sheet,
                metadata@,
                weight_col,
                box_col,
                weights@,
                row_idx,
                col as u32,
            ),
{
    let width = sheet.col_count();
    let mut cells: Vec<StyledCellValue> = Vec::new();
    let mut col: u32 = 0;
    while col < width
        invariant
            col <= width,
            width == sheet.width,
            cells@.len() == col,
            forall|c: int|
                0 <= c < col ==> (#[trigger] cells@[c])@ == output_cell(
                    *sheet,
                    metadata@,
                    weight_col,
                    box_col,
                    weights@,
                    row_idx,
                    c as u32,
                ),
        decreases width - col,
    {
        let cell = process_cell(sheet, row_idx, col, weight_col, box_col, weights, metadata);
        cells.push(cell);
        col += 1;
    }
    cells
}

/// Works out the rewritten sheet, row by row over the data rows, and logs
/// where the data ended.
pub fn process_sheet(
    sheet: &ExcelSheet,
    metadata: &SheetMetadata,
    config: &ProcessConfig,
    logs: &mut Vec<String>,
) -> (grid: Vec<Vec<StyledCellValue>>)
    requires
        config.wf(),
        sheet.wf(),
    ensures
        is_output_of(grid@, *sheet, metadata@, *config),
        lines_of(final(logs)@) == lines_of(old(logs)@) + sheet_log(*sheet),
{
    let weight_col: u32 = (config.weight_column - 1) as u32;
    let box_col: u32 = (config.box_column - 1) as u32;
    let weights = precompute_weight_distributions(sheet, &metadata.merged_ranges, weight_col);
    let row_count = sheet.row_count();
    let mut grid: Vec<Vec<StyledCellValue>> = Vec::new();
    let mut row: u32 = 0;
    let mut stopped = false;
    let ghost logged = logs@;
    while row < row_count && !stopped
        invariant
            row <= row_count,
            row_count == sheet.height(),
            weight_col == weight_col_of(*config),
            box_col == box_col_of(*config),
            weights@ == all_region_weights(*sheet, metadata@.merged_ranges, weight_col),
            grid@.len() == leading_rows(*sheet, row as nat),
            !stopped ==> leading_rows(*sheet, row as nat) == row,
            stopped ==> leading_rows(*sheet, row as nat) < row && data_rows(*sheet)
                == leading_rows(*sheet, row as nat),
            !stopped ==> logs@ == logged,
            stopped ==> lines_of(logs@) == lines_of(logged).push(
                stop_line(leading_rows(*sheet, row as nat) + 1),
            ),
            forall|r: int| 0 <= r < grid@.len() ==> (#[trigger] grid@[r])@.len() == sheet.width,
            forall|r: int, c: int|
                0 <= r < grid@.len() && 0 <= c < sheet.width ==> (#[trigger] grid@[r]@[c])@
                    == output_cell(
                    *sheet,
                    metadata@,
                    weight_col,
                    box_col,
                    weights@,
                    r as u32,
                    c as u32,
                ),
        decreases row_count - row,
    {
        if sheet.is_empty(row, 0) {
            let ghost before = logs@;
            log_count(logs, "第 ", row as u64 + 1, " 行第一列为空，停止处理");
            proof {
                assert(logs@ == before.push(logs@.last()));
                assert(lines_of(logs@) =~= lines_of(before).push(logs@.last()@));
                lemma_leading_rows_stop(*sheet, row as nat, sheet.height() as nat);
            }
            stopped = true;
            row += 1;
        } else {
            let cells = process_row(sheet, row, weight_col, box_col, &weights, metadata);
            grid.push(cells);
            row += 1;
        }
    }
    let ghost before = logs@;
    log_count(logs, "处理完成，共 ", grid.len() as u64, " 行数据");
    proof {
        assert(logs@ == before.push(logs@.last()));
        assert(lines_of(logs@) =~= lines_of(before).push(logs@.last()@));
        if stopped {
            assert(lines_of(logs@) =~= lines_of(logged) + sheet_log(*sheet));
        } else {
            assert(row == row_count);
            assert(lines_of(logs@) =~= lines_of(logged) + sheet_log(*sheet));
        }
    }
    grid
}

/// The format under which a cell is written: a weight cell always shows
/// two decimals, whatever number format it inherited, and keeps its
/// background; any other cell shows the format and background of its style.
pub open spec fn cell_format(cell: StyledModel) -> FormatModel {
    if cell.is_weight_cell {
        house_format(Some("0.00"@), background_of(cell.style))
    } else {
        house_format(number_format_of(cell.style), background_of(cell.style))
    }
}

/// The step that writes one cell. A cell with a picture gets the picture
/// and nothing else; if the picture cannot be embedded the cell is written
/// empty, without it, and the step that embeds a picture carries the
/// cell's format for the case that the workbook will not take it.
pub open spec fn cell_step(cell: StyledModel, row: u32, col: u32) -> ActionModel {
    match cell.image {
        Some(image) => if image_complaint(image.data) is None {
            ActionModel::EmbedImage {
                row,
                col,
                image,
                size: 18,
                x_offset: 21,
                y_offset: 4,
                fallback: cell_format(cell),
            }
        } else {
            ActionModel::WriteCell {
                row,
                col,
                content: ContentModel::Text(Seq::empty()),
                format: cell_format(cell),
            }
        },
        None => ActionModel::WriteCell {
            row,
            col,
            content: content_of(cell.value),
            format: cell_format(cell),
        },
    }
}

/// The line logged for a picture that cannot be put on the cell
/// `(row, col)`; the line counts rows and columns from one.
pub open spec fn embed_failure_line(row: u32, col: u32, why: Seq<char>) -> Seq<char> {
    "嵌入图片失败 ("@ + decimal_text((row + 1) as nat) + ", "@ + decimal_text((col + 1) as nat)
        + "): "@ + why
}

/// What writing one cell logs: a line if its picture cannot be embedded.
pub open spec fn cell_log(cell: StyledModel, row: u32, col: u32) -> Seq<Seq<char>> {
    match cell.image {
        Some(image) => match image_complaint(image.data) {
            Some(why) => seq![embed_failure_line(row, col, why)],
            None => Seq::empty(),
        },
        None => Seq::empty(),
    }
}

/// The steps that write the first `upto` cells of a row.
pub open spec fn row_steps(cells: Seq<StyledCellValue>, row: u32, upto: nat) -> Seq<ActionModel>
    decreases upto,
{
    if upto == 0 {
        Seq::empty()
    } else {
        row_steps(cells, row, (upto - 1) as nat).push(
            cell_step(cells[upto - 1]@, row, (upto - 1) as u32),
        )
    }
}

/// What writing the first `upto` cells of a row logs.
pub open spec fn row_log(cells: Seq<StyledCellValue>, row: u32, upto: nat) -> Seq<Seq<char>>
    decreases upto,
{
    if upto == 0 {
        Seq::empty()
    } else {
        row_log(cells, row, (upto - 1) as nat) + cell_log(cells[upto - 1]@, row, (upto - 1) as u32)
    }
}

/// The steps that write the first `upto` rows: each row is given a height
/// of 20 points, then its cells are written.
pub open spec fn rows_steps(rows: Seq<Vec<StyledCellValue>>, upto: nat) -> Seq<ActionModel>
    decreases upto,
{
    if upto == 0 {
        Seq::empty()
    } else {
        rows_steps(rows, (upto - 1) as nat).push(
            ActionModel::SetRowHeight { row: (upto - 1) as u32, points: 20 },
        ) + row_steps(rows[upto - 1]@, (upto - 1) as u32, rows[upto - 1]@.len())
    }
}

/// What writing the first `upto` rows logs.
pub open spec fn rows_log(rows: Seq<Vec<StyledCellValue>>, upto: nat) -> Seq<Seq<char>>
    decreases upto,
{
    if upto == 0 {
        Seq::empty()
    } else {
        rows_log(rows, (upto - 1) as nat) + row_log(
            rows[upto - 1]@,
            (upto - 1) as u32,
            rows[upto - 1]@.len(),
        )
    }
}

/// The width of column `col`: its own, or the sheet's default.
pub open spec fn column_width(metadata: MetadataModel, col: u32) -> Seq<char> {
    if metadata.column_widths.contains_key(col) {
        metadata.column_widths[col]
    } else {
        metadata.default_column_width
    }
}

/// The steps that give the first `upto` columns their widths.
pub open spec fn width_steps(metadata: MetadataModel, upto: nat) -> Seq<ActionModel>
    decreases upto,
{
    if upto == 0 {
        Seq::empty()
    } else {
        width_steps(metadata, (upto - 1) as nat).push(
            ActionModel::SetColumnWidth {
                col: (upto - 1) as u32,
                width: column_width(metadata, (upto - 1) as u32),
            },
        )
    }
}

/// How many of the first `upto` cells of a row carry a picture.
pub open spec fn row_pictures(cells: Seq<StyledCellValue>, upto: nat) -> nat
    decreases upto,
{
    if upto == 0 {
        0
    } else if cells[upto - 1].image is Some {
        row_pictures(cells, (upto - 1) as nat) + 1
    } else {
        row_pictures(cells, (upto - 1) as nat)
    }
}

/// How many cells of the first `upto` rows carry a picture.
pub open spec fn pictures(rows: Seq<Vec<StyledCellValue>>, upto: nat) -> nat
    decreases upto,
{
    if upto == 0 {
        0
    } else {
        pictures(rows, (upto - 1) as nat) + row_pictures(rows[upto - 1]@, rows[upto - 1]@.len())
    }
}

/// How many columns are given a width: as many as the first row has cells.
pub open spec fn planned_columns(rows: Seq<Vec<StyledCellValue>>) -> nat {
    if rows.len() > 0 {
        rows[0]@.len()
    } else {
        0
    }
}

/// The steps that write the sheet: the column widths first, then the rows.
pub open spec fn write_plan(rows: Seq<Vec<StyledCellValue>>, metadata: MetadataModel) -> Seq<
    ActionModel,
> {
    width_steps(metadata, planned_columns(rows)) + rows_steps(rows, rows.len())
}

/// The line logged when there are pictures to embed.
pub open spec fn pictures_line(count: nat) -> Seq<char> {
    "发现 "@ + decimal_text(count) + " 个图片待嵌入"@
}

/// What planning the write logs: the number of pictures if there are any,
/// a line for each picture that cannot be embedded, and that the file is
/// about to be saved.
pub open spec fn write_log(rows: Seq<Vec<StyledCellValue>>) -> Seq<Seq<char>> {
    (if pictures(rows, rows.len()) > 0 {
        seq![pictures_line(pictures(rows, rows.len()))]
    } else {
        Seq::empty()
    }) + rows_log(rows, rows.len()).push("保存文件..."@)
}

/// The sheet is small enough for its rows and columns to be numbered in 32 bits.
pub open spec fn fits_a_sheet(rows: Seq<Vec<StyledCellValue>>) -> bool {
    rows.len() <= u32::MAX && forall|r: int|
        0 <= r < rows.len() ==> (#[trigger] rows[r])@.len() <= u32::MAX
}

/// The format under which a cell is written.
fn format_of(cell: &StyledCellValue) -> (format: CellFormat)
    ensures
        format@ == cell_format(cell@),
{
    let style = match &cell.style {
        Some(s) => Some(s),
        None => None,
    };
    if cell.is_weight_cell {
        create_weight_format(style)
    } else {
        create_format_with_style(style)
    }
}

/// The line logged for a picture that cannot be put on a cell.
pub fn embed_failure_log(row: u32, col: u32, why: &str) -> (line: String)
    ensures
        line@ == embed_failure_line(row, col, why@),
{
    let mut line = String::from_str("嵌入图片失败 (");
    line.append(u64_to_text(row as u64 + 1).as_str());
    line.append(", ");
    line.append(u64_to_text(col as u64 + 1).as_str());
    line.append("): ");
    line.append(why);
    line
}

/// What is done about a step whose picture the workbook would not take,
/// for the reason `why`: a line for the log, and the step that writes the
/// picture's cell empty instead. There is nothing to do for a step that
/// puts no picture.
pub open spec fn picture_left_out(action: ActionModel, why: Seq<char>) -> Option<
    (Seq<char>, ActionModel),
> {
    match action {
        ActionModel::EmbedImage { row, col, fallback, .. } => Some(
            (
                embed_failure_line(row, col, why),
                ActionModel::WriteCell {
                    row,
                    col,
                    content: ContentModel::Text(Seq::empty()),
                    format: fallback,
                },
            ),
        ),
        _ => None,
    }
}

/// Decides what follows a picture that the workbook would not take: the
/// failure is logged and the cell is written empty, so that one picture
/// never ends the writing.
pub fn leave_picture_out(action: &WriteAction, why: &str) -> (next: Option<(String, WriteAction)>)
    ensures
        match next {
            Some((line, step)) => picture_left_out(action@, why@) == Some((line@, step@)),
            None => picture_left_out(action@, why@) is None,
        },
{
    match action {
        WriteAction::EmbedImage { row, col, .. } => match write_without_picture(action) {
            Some(step) => Some((embed_failure_log(*row, *col, why), step)),
            None => None,
        },
        _ => None,
    }
}

/// Plans the writing of one cell.
fn plan_cell(
    cell: &StyledCellValue,
    row: u32,
    col: u32,
    actions: &mut Vec<WriteAction>,
    logs: &mut Vec<String>,
)
    ensures
        actions_model(final(actions)@) == actions_model(old(actions)@).push(
            cell_step(cell@, row, col),
        ),
        lines_of(final(logs)@) == lines_of(old(logs)@) + cell_log(cell@, row, col),
{
    let ghost planned = actions@;
    let ghost logged = logs@;
    let action = match &cell.image {
        Some(image) => match embed_image_to_cell(row, col, image, format_of(cell)) {
            Ok(action) => action,
            Err(error) => {
                let line = embed_failure_log(row, col, error.message.as_str());
                logs.push(line);
                assert(lines_of(logs@) =~= lines_of(logged).push(line@));
                write_cell(row, col, &CellValue::Empty, format_of(cell))
            },
        },
        None => write_cell(row, col, &cell.value, format_of(cell)),
    };
    actions.push(action);
    assert(actions_model(actions@) =~= actions_model(planned).push(action@));
    assert(lines_of(logs@) =~= lines_of(logged) + cell_log(cell@, row, col));
}

/// Plans the writing of one row.
fn plan_row(
    cells: &Vec<StyledCellValue>,
    row: u32,
    actions: &mut Vec<WriteAction>,
    logs: &mut Vec<String>,
) -> (count: usize)
    requires
        cells@.len() <= u32::MAX,
    ensures
        actions_model(final(actions)@) == actions_model(old(actions)@) + row_steps(
            cells@,
            row,
            cells@.len(),
        ),
        lines_of(final(logs)@) == lines_of(old(logs)@) + row_log(cells@, row, cells@.len()),
        count == row_pictures(cells@, cells@.len()),
        count <= cells@.len(),
{
    let ghost planned = actions_model(actions@);
    let ghost logged = lines_of(logs@);
    let mut col: usize = 0;
    let mut count: usize = 0;
    assert(planned + row_steps(cells@, row, 0) =~= planned);
    assert(logged + row_log(cells@, row, 0) =~= logged);
    while col < cells.len()
        invariant
            col <= cells@.len() <= u32::MAX,
            actions_model(actions@) == planned + row_steps(cells@, row, col as nat),
            lines_of(logs@) == logged + row_log(cells@, row, col as nat),
            count == row_pictures(cells@, col as nat),
            count <= col,
        decreases cells@.len() - col,
    {
        plan_cell(&cells[col], row, col as u32, actions, logs);
        if cells[col].image.is_some() {
            count += 1;
        }
        proof {
            assert((planned + row_steps(cells@, row, col as nat)).push(
                cell_step(cells@[col as int]@, row, col as u32),
            ) =~= planned + row_steps(cells@, row, (col + 1) as nat));
            assert(logged + row_log(cells@, row, col as nat) + cell_log(
                cells@[col as int]@,
                row,
                col as u32,
            ) =~= logged + row_log(cells@, row, (col + 1) as nat));
        }
        col += 1;
    }
    count
}

/// Plans the column widths.
fn plan_widths(metadata: &SheetMetadata, columns: usize, actions: &mut Vec<WriteAction>)
    requires
        columns <= u32::MAX,
    ensures
        actions_model(final(actions)@) == actions_model(old(actions)@) + width_steps(
            metadata@,
            columns as nat,
        ),
{
    let ghost planned = actions_model(actions@);
    let mut col: usize = 0;
    assert(planned + width_steps(metadata@, 0) =~= planned);
    while col < columns
        invariant
            col <= columns <= u32::MAX,
            actions_model(actions@) == planned + width_steps(metadata@, col as nat),
        decreases columns - col,
    {
        let key: u32 = col as u32;
        let action = match metadata.column_widths.get(&key) {
            Some(width) => set_column_width(key, width.as_str()),
            None => set_column_width(key, metadata.default_column_width.as_str()),
        };
        let ghost before = actions@;
        actions.push(action);
        proof {
            assert(actions_model(actions@) =~= actions_model(before).push(action@));
            assert((planned + width_steps(metadata@, col as nat)).push(action@) =~= planned
                + width_steps(metadata@, (col + 1) as nat));
        }
        col += 1;
    }
}

/// Plans the writing of the rewritten sheet: the steps to take, in order,
/// and what to log about them.
pub fn write_processed_data(
    data: &Vec<Vec<StyledCellValue>>,
    metadata: &SheetMetadata,
    logs: &mut Vec<String>,
) -> (actions: Vec<WriteAction>)
    requires
        fits_a_sheet(data@),
    ensures
        actions_model(actions@) == write_plan(data@, metadata@),
        lines_of(final(logs)@) == lines_of(old(logs)@) + write_log(data@),
{
    let ghost logged = lines_of(logs@);
    let mut actions: Vec<WriteAction> = Vec::new();
    let columns: usize = if data.len() > 0 {
        data[0].len()
    } else {
        0
    };
    assert(actions_model(actions@) =~= Seq::<ActionModel>::empty());
    plan_widths(metadata, columns, &mut actions);
    assert(actions_model(actions@) =~= width_steps(metadata@, planned_columns(data@)));
    let ghost widths = actions_model(actions@);
    let mut failures: Vec<String> = Vec::new();
    assert(lines_of(failures@) =~= Seq::<Seq<char>>::empty());
    let mut count: u64 = 0;
    let mut row: usize = 0;
    assert(widths + rows_steps(data@, 0) =~= widths);
    while row < data.len()
        invariant
            row <= data@.len(),
            fits_a_sheet(data@),
            actions_model(actions@) == widths + rows_steps(data@, row as nat),
            lines_of(failures@) == rows_log(data@, row as nat),
            count == pictures(data@, row as nat),
            count <= row * 0x1_0000_0000,
        decreases data@.len() - row,
    {
        let ghost before = actions@;
        actions.push(set_row_height(row as u32, 20));
        assert(actions_model(actions@) =~= actions_model(before).push(
            ActionModel::SetRowHeight { row: row as u32, points: 20 },
        ));
        let ghost cells = data@[row as int];
        assert(cells@.len() <= u32::MAX);
        let found = plan_row(&data[row], row as u32, &mut actions, &mut failures);
        proof {
            assert((widths + rows_steps(data@, row as nat)).push(
                ActionModel::SetRowHeight { row: row as u32, points: 20 },
            ) + row_steps(cells@, row as u32, cells@.len()) =~= widths + rows_steps(
                data@,
                (row + 1) as nat,
            ));
            assert(row * 0x1_0000_0000 + 0x1_0000_0000 == (row + 1) * 0x1_0000_0000)
                by (nonlinear_arith);
            assert(row * 0x1_0000_0000 <= 0xffff_ffff * 0x1_0000_0000) by (nonlinear_arith)
                requires
                    row <= 0xffff_ffff,
            ;
        }
        count = count + found as u64;
        row += 1;
    }
    if count > 0 {
        let ghost before = logs@;
        log_count(logs, "发现 ", count, " 个图片待嵌入");
        assert(logs@ == before.push(logs@.last()));
        assert(lines_of(logs@) =~= lines_of(before).push(logs@.last()@));
    }
    let ghost counted = lines_of(logs@);
    let mut i: usize = 0;
    while i < failures.len()
        invariant
            i <= failures@.len(),
            lines_of(logs@) == counted + lines_of(failures@).take(i as int),
        decreases failures@.len() - i,
    {
        let ghost before = logs@;
        let line = failures[i].clone();
        logs.push(line);
        proof {
            assert(lines_of(logs@) =~= lines_of(before).push(line@));
            assert(lines_of(failures@).take(i + 1) =~= lines_of(failures@).take(i as int).push(
                failures@[i as int]@,
            ));
        }
        i += 1;
    }
    let ghost before = logs@;
    let last = String::from_str("保存文件...");
    logs.push(last);
    proof {
        assert(lines_of(failures@).take(failures@.len() as int) =~= lines_of(failures@));
        assert(lines_of(logs@) =~= lines_of(before).push(last@));
        assert(lines_of(logs@) =~= logged + write_log(data@));
    }
    actions
}

/// The name of the rewritten workbook: the source's name without its
/// extension, a suffix that marks it as split, and the source's extension,
/// or `xlsx` where it has none.
pub open spec fn output_name(stem: Seq<char>, extension: Option<Seq<char>>) -> Seq<char> {
    stem + "_拆分表."@ + (match extension {
        Some(e) => e,
        None => "xlsx"@,
    })
}

/// The name of the rewritten workbook.
pub fn output_file_name(stem: &str, extension: Option<&str>) -> (name: String)
    ensures
        name@ == output_name(
            stem@,
            match extension {
                Some(e) => Some(e@),
                None => None,
            },
        ),
{
    let mut name = String::from_str(stem);
    name.append("_拆分表.");
    match extension {
        Some(e) => {
            name.append(e);
        },
        None => {
            name.append("xlsx");
        },
    }
    name
}

/// Calls `Path::parent`: the directory part of a path, as the platform
/// reads paths; lossily decoded. Whatever the platform, the empty path has
/// no parent.
#[verifier::external_body]
fn path_parent(path: &str) -> (parent: Option<String>)
    ensures
        path@.len() == 0 ==> parent is None,
{
    std::path::Path::new(path).parent().map(|p| p.to_string_lossy().into_owned())
}

/// Calls `Path::file_stem`: the file name without its extension, as the
/// platform reads paths.
#[verifier::external_body]
fn path_file_stem(path: &str) -> (stem: Option<String>) {
    std::path::Path::new(path).file_stem().and_then(|s| s.to_str()).map(|s| s.to_string())
}

/// Calls `Path::extension`: the extension of the file name, as the platform
/// reads paths.
#[verifier::external_body]
fn path_extension(path: &str) -> (extension: Option<String>) {
    std::path::Path::new(path).extension().and_then(|s| s.to_str()).map(|s| s.to_string())
}

/// Calls `Path::join`: `name` inside the directory `dir`, with the
/// platform's separator; lossily decoded.
#[verifier::external_body]
fn path_join(dir: &str, name: &str) -> (path: String) {
    std::path::Path::new(dir).join(name).to_string_lossy().into_owned()
}

/// The directory and the name of the rewritten workbook, given what the
/// platform makes of the source's path; a path without a directory or
/// without a file name is a `FILE_ERROR`, the directory being looked at first.
pub open spec fn output_place(
    parent: Option<Seq<char>>,
    stem: Option<Seq<char>>,
    extension: Option<Seq<char>>,
) -> Result<(Seq<char>, Seq<char>), ErrorModel> {
    match (parent, stem) {
        (None, _) => Err(ErrorModel { message: "无法获取文件目录"@, code: "FILE_ERROR"@ }),
        (Some(_), None) => Err(ErrorModel { message: "无法获取文件名"@, code: "FILE_ERROR"@ }),
        (Some(dir), Some(name)) => Ok((dir, output_name(name, extension))),
    }
}

/// Decides the directory and the name of the rewritten workbook.
pub fn place_output(parent: Option<String>, stem: Option<String>, extension: Option<String>)
    -> (place: Result<(String, String), CommandError>)
    ensures
        match place {
            Ok((dir, name)) => output_place(text_of(parent), text_of(stem), text_of(extension))
                == Ok::<(Seq<char>, Seq<char>), ErrorModel>((dir@, name@)),
            Err(error) => output_place(text_of(parent), text_of(stem), text_of(extension))
                == Err::<(Seq<char>, Seq<char>), ErrorModel>(error@),
        },
{
    let dir = match parent {
        Some(dir) => dir,
        None => {
            return Err(CommandError::new("无法获取文件目录", "FILE_ERROR"));
        },
    };
    let stem = match stem {
        Some(stem) => stem,
        None => {
            return Err(CommandError::new("无法获取文件名", "FILE_ERROR"));
        },
    };
    let name = match &extension {
        Some(e) => output_file_name(stem.as_str(), Some(e.as_str())),
        None => output_file_name(stem.as_str(), None),
    };
    Ok((dir, name))
}

/// Where the rewritten workbook goes: beside the source, under the name
/// that `output_name` gives. How a path splits into directory, name and
/// extension, and how the two are joined again, is the platform's
/// business; what is made of the pieces is `place_output`'s. The empty path
/// lies in no directory on any platform, and is refused as such.
pub fn generate_output_path(input_path: &str) -> (path: Result<String, CommandError>)
    ensures
        match path {
            Ok(_) => input_path@.len() > 0,
            Err(error) => error.code@ == "FILE_ERROR"@ && (error.message@ == "无法获取文件目录"@
                || error.message@ == "无法获取文件名"@),
        },
        input_path@.len() == 0 ==> path is Err && path->Err_0@ == (ErrorModel {
            message: "无法获取文件目录"@,
            code: "FILE_ERROR"@,
        }),
{
    let parent = path_parent(input_path);
    let stem = path_file_stem(input_path);
    let extension = path_extension(input_path);
    match place_output(parent, stem, extension) {
        Ok((dir, name)) => Ok(path_join(dir.as_str(), name.as_str())),
        Err(error) => Err(error),
    }
}

/// `names`, with `", "` between each two.
pub open spec fn listed(names: Seq<Seq<char>>) -> Seq<char>
    decreases names.len(),
{
    if names.len() == 0 {
        Seq::empty()
    } else if names.len() == 1 {
        names[0]
    } else {
        listed(names.drop_last()) + ", "@ + names.last()
    }
}

/// Joins `names` with `", "`.
fn join_names(names: &Vec<String>) -> (text: String)
    ensures
        text@ == listed(lines_of(names@)),
{
    let ghost model = lines_of(names@);
    let mut text = String::new();
    let mut i: usize = 0;
    assert(model.take(0) =~= Seq::<Seq<char>>::empty());
    while i < names.len()
        invariant
            i <= names@.len(),
            model == lines_of(names@),
            text@ == listed(model.take(i as int)),
        decreases names@.len() - i,
    {
        proof {
            assert(model.take(i + 1).drop_last() =~= model.take(i as int));
            assert(model.take(i + 1).last() == names@[i as int]@);
            if i == 0 {
                assert(model.take(1)[0] == names@[0]@);
                assert(Seq::<char>::empty() + names@[0]@ =~= names@[0]@);
            }
        }
        if i > 0 {
            text.append(", ");
        }
        text.append(names[i].as_str());
        i += 1;
    }
    proof {
        assert(model.take(i as int) =~= model);
    }
    text
}

/// The name of a layout as it is logged.
pub open spec fn layout_name(kind: ProcessType) -> Seq<char> {
    match kind {
        ProcessType::SeaRailWithImage => "SeaRailWithImage"@,
        ProcessType::SeaRailNoImage => "SeaRailNoImage"@,
        ProcessType::AirFreight => "AirFreight"@,
    }
}

/// What is logged before the sheet is worked out: the file and the layout,
/// that the workbook is open, the size of the sheet, the number of merged
/// regions, the number of pictures if there are any, and the pictures that
/// were converted or left out, if any were.
pub open spec fn opening_log(
    file_path: Seq<char>,
    config: ProcessConfig,
    sheet: ExcelSheet,
    metadata: MetadataModel,
) -> Seq<Seq<char>> {
    seq![
        "开始处理文件: "@ + file_path,
        "处理类型: "@ + layout_name(config.process_type),
        "成功打开 Excel 文件"@,
        "读取工作表，共 "@ + decimal_text(sheet.height() as nat) + " 行 "@ + decimal_text(
            sheet.width as nat,
        ) + " 列"@,
        "检测到 "@ + decimal_text(metadata.merged_ranges.len()) + " 个合并单元格区域"@,
    ] + (if metadata.cell_images.len() > 0 {
        seq!["检测到 "@ + decimal_text(metadata.cell_images.len()) + " 个图片"@]
    } else {
        Seq::empty()
    }) + (if metadata.converted_images.len() > 0 {
        seq![
            "✓ 自动转换了 "@ + decimal_text(metadata.converted_images.len()) + " 个图片格式: "@
                + listed(metadata.converted_images),
        ]
    } else {
        Seq::empty()
    }) + (if metadata.unsupported_images.len() > 0 {
        seq![
            "⚠️ 跳过 "@ + decimal_text(metadata.unsupported_images.len())
                + " 个无法处理的图片: "@ + listed(metadata.unsupported_images),
        ]
    } else {
        Seq::empty()
    })
}

/// Everything that is needed to write the rewritten workbook.
#[derive(Debug)]
pub struct ProcessPlan {
    /// Where the workbook goes.
    pub output_path: String,
    /// The rewritten sheet.
    pub data: Vec<Vec<StyledCellValue>>,
    /// The steps that write it, in order.
    pub actions: Vec<WriteAction>,
    /// What has been logged so far.
    pub logs: Vec<String>,
}

/// The line that tells where the workbook goes.
pub open spec fn output_line(path: Seq<char>) -> Seq<char> {
    "输出文件路径: "@ + path
}

/// `plan` is what transforming `sheet` under `metadata` and `config` comes
/// to: the rewritten sheet, the steps that write it, and the log.
pub open spec fn is_plan_of(
    plan: ProcessPlan,
    file_path: Seq<char>,
    sheet: ExcelSheet,
    metadata: MetadataModel,
    config: ProcessConfig,
    output_path: Seq<char>,
) -> bool {
    &&& plan.output_path@ == output_path
    &&& is_output_of(plan.data@, sheet, metadata, config)
    &&& actions_model(plan.actions@) == write_plan(plan.data@, metadata)
    &&& lines_of(plan.logs@) == opening_log(file_path, config, sheet, metadata) + sheet_log(sheet)
        + seq![output_line(output_path)] + write_log(plan.data@)
}

/// Adds a line made of two texts to the log.
fn log_text(logs: &mut Vec<String>, before: &str, text: &str)
    ensures
        lines_of(final(logs)@) == lines_of(old(logs)@).push(before@ + text@),
{
    let ghost logged = logs@;
    let mut line = String::from_str(before);
    line.append(text);
    logs.push(line);
    assert(lines_of(logs@) =~= lines_of(logged).push(line@));
}

/// Adds a line that counts and lists names to the log, if there are any.
fn log_names(logs: &mut Vec<String>, before: &str, names: &Vec<String>, after: &str)
    ensures
        lines_of(final(logs)@) == lines_of(old(logs)@) + (if names@.len() > 0 {
            seq![
                before@ + decimal_text(names@.len()) + after@ + listed(lines_of(names@)),
            ]
        } else {
            Seq::<Seq<char>>::empty()
        }),
{
    let ghost logged = logs@;
    if names.len() > 0 {
        let mut line = String::from_str(before);
        line.append(u64_to_text(names.len() as u64).as_str());
        line.append(after);
        line.append(join_names(names).as_str());
        logs.push(line);
        assert(lines_of(logs@) =~= lines_of(logged).push(line@));
        assert(lines_of(logged).push(line@) =~= lines_of(logged) + seq![line@]);
    } else {
        assert(lines_of(logs@) =~= lines_of(logged) + Seq::<Seq<char>>::empty());
    }
}

/// The name of a layout as it is logged.
fn layout_name_of(kind: ProcessType) -> (name: &'static str)
    ensures
        name@ == layout_name(kind),
{
    match kind {
        ProcessType::SeaRailWithImage => "SeaRailWithImage",
        ProcessType::SeaRailNoImage => "SeaRailNoImage",
        ProcessType::AirFreight => "AirFreight",
    }
}

/// Logs what is known before the sheet is worked out.
fn log_opening(
    logs: &mut Vec<String>,
    file_path: &str,
    config: &ProcessConfig,
    sheet: &ExcelSheet,
    metadata: &SheetMetadata,
)
    ensures
        lines_of(final(logs)@) == lines_of(old(logs)@) + opening_log(
            file_path@,
            *config,
            *sheet,
            metadata@,
        ),
{
    let ghost logged = lines_of(logs@);
    log_text(logs, "开始处理文件: ", file_path);
    log_text(logs, "处理类型: ", layout_name_of(config.process_type));
    log_text(logs, "成功打开 Excel 文件", "");
    assert("成功打开 Excel 文件"@ + ""@ =~= "成功打开 Excel 文件"@) by {
        reveal_strlit("");
    }
    let mut size = String::from_str("读取工作表，共 ");
    size.append(u64_to_text(sheet.row_count() as u64).as_str());
    size.append(" 行 ");
    size.append(u64_to_text(sheet.col_count() as u64).as_str());
    log_text(logs, size.as_str(), " 列");
    let ghost before = logs@;
    log_count(logs, "检测到 ", metadata.merged_ranges.len() as u64, " 个合并单元格区域");
    proof {
        assert(logs@ == before.push(logs@.last()));
        assert(lines_of(logs@) =~= lines_of(before).push(logs@.last()@));
    }
    let pictures = metadata.cell_images.len();
    proof {
        assert(metadata@.cell_images.dom() =~= metadata.cell_images@.dom());
        assert(metadata@.cell_images.len() == metadata.cell_images@.len());
    }
    let ghost five = lines_of(logs@);
    if pictures > 0 {
        let ghost before = logs@;
        log_count(logs, "检测到 ", pictures as u64, " 个图片");
        proof {
            assert(logs@ == before.push(logs@.last()));
            assert(lines_of(logs@) =~= lines_of(before).push(logs@.last()@));
        }
    }
    let ghost six = lines_of(logs@);
    log_names(logs, "✓ 自动转换了 ", &metadata.converted_images, " 个图片格式: ");
    log_names(logs, "⚠️ 跳过 ", &metadata.unsupported_images, " 个无法处理的图片: ");
    proof {
        assert(lines_of(metadata.converted_images@) == metadata@.converted_images);
        assert(lines_of(metadata.unsupported_images@) == metadata@.unsupported_images);
        assert(lines_of(logs@) =~= logged + opening_log(file_path@, *config, *sheet, metadata@));
    }
}

/// Works out the rewritten sheet and plans its writing, given the facts of
/// the source sheet and the place where the new workbook goes.
pub fn plan_transformation(
    file_path: &str,
    sheet: &ExcelSheet,
    metadata: &SheetMetadata,
    config: &ProcessConfig,
    output_path: String,
) -> (plan: ProcessPlan)
    requires
        config.wf(),
        sheet.wf(),
    ensures
        is_plan_of(plan, file_path@, *sheet, metadata@, *config, output_path@),
{
    let mut logs: Vec<String> = Vec::new();
    assert(lines_of(logs@) =~= Seq::<Seq<char>>::empty());
    log_opening(&mut logs, file_path, config, sheet, metadata);
    let data = process_sheet(sheet, metadata, config, &mut logs);
    log_text(&mut logs, "输出文件路径: ", output_path.as_str());
    proof {
        lemma_leading_rows_bound(*sheet, sheet.height() as nat);
    }
    let actions = write_processed_data(&data, metadata, &mut logs);
    proof {
        assert(lines_of(logs@) =~= opening_log(file_path@, *config, *sheet, metadata@) + sheet_log(
            *sheet,
        ) + seq![output_line(output_path@)] + write_log(data@));
    }
    ProcessPlan { output_path, data, actions, logs }
}

/// Transforms the first sheet of a workbook: `bytes` is the workbook
/// package, which gives the presentation facts, `conversions` holds what a
/// converter made of its pictures that wanted conversion, and `sheet` holds
/// its cell values. The result is the rewritten sheet with the steps that
/// write it. A package that cannot be read gives the error of
/// `package_metadata`; a path that names no file in a directory gives a
/// `FILE_ERROR`.
pub fn process_excel_file(
    file_path: &str,
    bytes: Vec<u8>,
    conversions: &TextMap<Vec<u8>>,
    sheet: &ExcelSheet,
    config: &ProcessConfig,
) -> (outcome: Result<ProcessPlan, CommandError>)
    requires
        config.wf(),
        sheet.wf(),
    ensures
        match outcome {
            Ok(plan) => package_metadata(bytes@, byte_values(conversions@)) is Ok && is_plan_of(
                plan,
                file_path@,
                *sheet,
                package_metadata(bytes@, byte_values(conversions@))->Ok_0,
                *config,
                plan.output_path@,
            ),
            Err(error) => if package_metadata(bytes@, byte_values(conversions@)) is Err {
                package_metadata(bytes@, byte_values(conversions@)) == Err::<
                    MetadataModel,
                    ErrorModel,
                >(error@)
            } else {
                error.code@ == "FILE_ERROR"@ && (error.message@ == "无法获取文件目录"@
                    || error.message@ == "无法获取文件名"@)
            },
        },
{
    let metadata = match parse_sheet_metadata(bytes, conversions) {
        Ok(metadata) => metadata,
        Err(error) => {
            return Err(error);
        },
    };
    let output_path = match generate_output_path(file_path) {
        Ok(path) => path,
        Err(error) => {
            return Err(error);
        },
    };
    Ok(plan_transformation(file_path, sheet, &metadata, config, output_path))
}

/// What is reported once the workbook is written: the log so far with a
/// last line that says so.
pub fn complete(output_path: String, logs: Vec<String>) -> (response: ProcessResponse)
    ensures
        response.success,
        response.output_path == output_path,
        response.message@ == "处理完成"@,
        lines_of(response.logs@) == lines_of(logs@).push("成功写入处理后的文件"@),
{
    let mut logs = logs;
    let ghost logged = logs@;
    let last = String::from_str("成功写入处理后的文件");
    logs.push(last);
    assert(lines_of(logs@) =~= lines_of(logged).push(last@));
    ProcessResponse { success: true, output_path, message: String::from_str("处理完成"), logs }
}

} // verus!
