//! The values and formats of the rewritten sheet, and the steps that write it.

use crate::commands::error::CommandError;
use crate::commands::excel::styles::{CellStyle, CellStyleModel};
use crate::commands::excel::worksheet::{EmbeddedImage, ImageModel};
use crate::numeric::{
    decimal_text, digit_char, i64_value, is_decimal, is_decimal_text, parse_i64, push_decimal,
};
use crate::text::text_of;
use crate::text::{chars_of, code_of, str_eq, string_of};
use vstd::prelude::*;

verus! {

/// The value of a cell of the rewritten sheet.
#[derive(Debug)]
pub enum CellValue {
    String(String),
    /// A number, written in decimal.
    Number(String),
    Integer(i64),
    /// A formula, with its leading `=`.
    Formula(String),
    Empty,
}

/// What a `CellValue` says.
pub enum ValueModel {
    String(Seq<char>),
    Number(Seq<char>),
    Integer(i64),
    Formula(Seq<char>),
    Empty,
}

impl View for CellValue {
    type V = ValueModel;

    open spec fn view(&self) -> ValueModel {
        match self {
            CellValue::String(s) => ValueModel::String(s@),
            CellValue::Number(n) => ValueModel::Number(n@),
            CellValue::Integer(i) => ValueModel::Integer(*i),
            CellValue::Formula(f) => ValueModel::Formula(f@),
            CellValue::Empty => ValueModel::Empty,
        }
    }
}

/// A cell of the rewritten sheet: its value, its style, whether it holds a
/// distributed weight, and its picture.
#[derive(Debug)]
pub struct StyledCellValue {
    pub value: CellValue,
    pub style: Option<CellStyle>,
    /// The cell holds a distributed weight and is shown with two decimals.
    pub is_weight_cell: bool,
    pub image: Option<EmbeddedImage>,
}

/// What a `StyledCellValue` says.
pub struct StyledModel {
    pub value: ValueModel,
    pub style: Option<CellStyleModel>,
    pub is_weight_cell: bool,
    pub image: Option<ImageModel>,
}

/// What an optional style says.
pub open spec fn style_of(style: Option<CellStyle>) -> Option<CellStyleModel> {
    match style {
        Some(s) => Some(s@),
        None => None,
    }
}

/// What an optional picture says.
pub open spec fn image_of(image: Option<EmbeddedImage>) -> Option<ImageModel> {
    match image {
        Some(i) => Some(i@),
        None => None,
    }
}

impl View for StyledCellValue {
    type V = StyledModel;

    open spec fn view(&self) -> StyledModel {
        StyledModel {
            value: self.value@,
            style: style_of(self.style),
            is_weight_cell: self.is_weight_cell,
            image: image_of(self.image),
        }
    }
}

/// The size of `amount`, sign aside.
pub open spec fn magnitude(amount: i64) -> nat {
    if amount < 0 {
        (-(amount as int)) as nat
    } else {
        amount as nat
    }
}

/// The sign that is written before a negative amount.
pub open spec fn sign_text(amount: i64) -> Seq<char> {
    if amount < 0 {
        seq!['-']
    } else {
        Seq::empty()
    }
}

/// An amount of hundredths written with exactly two decimals, such as
/// `20.00` or `-0.05`.
pub open spec fn two_decimal_text(amount: i64) -> Seq<char> {
    sign_text(amount) + decimal_text(magnitude(amount) / 100) + seq![
        '.',
        digit_char((magnitude(amount) / 10) % 10),
        digit_char(magnitude(amount) % 10),
    ]
}

/// The decimals of `frac` parts in `unit`, a power of ten, digit by digit
/// and without the zeros that would end them: `125000` parts in a million
/// are written `125`.
pub open spec fn decimals(frac: nat, unit: nat) -> Seq<char>
    decreases unit,
{
    if frac == 0 || unit < 10 {
        Seq::empty()
    } else {
        seq![digit_char((frac / (unit / 10)) % 10)] + decimals(frac % (unit / 10), unit / 10)
    }
}

/// An amount of millionths written with as many decimals as it has, such
/// as `5.5` or `-0.000125`.
pub open spec fn fraction_text(amount: i64) -> Seq<char> {
    sign_text(amount) + decimal_text(magnitude(amount) / 1_000_000) + seq!['.'] + decimals(
        magnitude(amount) % 1_000_000,
        1_000_000,
    )
}

/// The value of an amount of millionths: an integer where it is whole, a
/// number written as briefly as is exact where it is not, and empty where
/// there is no amount.
pub open spec fn amount_value(amount: Option<i64>) -> ValueModel {
    match amount {
        Some(a) => if a % 1_000_000 == 0 {
            ValueModel::Integer((a / 1_000_000) as i64)
        } else {
            ValueModel::Number(fraction_text(a))
        },
        None => ValueModel::Empty,
    }
}

/// The value that a cell's text stands for: empty for no text or an empty
/// one, an integer where the text reads as one, a number where it is
/// written as a decimal, and the text itself otherwise.
pub open spec fn sniffed_value(text: Option<Seq<char>>) -> ValueModel {
    match text {
        Some(t) if t.len() > 0 => match i64_value(t) {
            Some(i) => ValueModel::Integer(i),
            None => if is_decimal_text(t) {
                ValueModel::Number(t)
            } else {
                ValueModel::String(t)
            },
        },
        _ => ValueModel::Empty,
    }
}

/// The size of `amount`, sign aside.
fn magnitude_of(amount: i64) -> (size: u64)
    ensures
        size == magnitude(amount),
{
    if amount < 0 {
        (-(amount as i128)) as u64
    } else {
        amount as u64
    }
}

/// The ASCII digit that stands for `d`.
fn digit_of(d: u64) -> (c: char)
    requires
        d < 10,
    ensures
        c == digit_char(d as nat),
{
    (48u8 + (d as u8)) as char
}

/// Writes an amount of hundredths with two decimals.
fn hundredths_to_text(amount: i64) -> (text: String)
    ensures
        text@ == two_decimal_text(amount),
{
    let size = magnitude_of(amount);
    let mut out: Vec<char> = Vec::new();
    if amount < 0 {
        out.push('-');
    }
    assert(out@ == sign_text(amount));
    push_decimal(&mut out, size / 100);
    out.push('.');
    out.push(digit_of((size / 10) % 10));
    out.push(digit_of(size % 10));
    proof {
        let whole = sign_text(amount) + decimal_text(magnitude(amount) / 100);
        assert(out@ =~= whole + seq![
            '.',
            digit_char((magnitude(amount) / 10) % 10),
            digit_char(magnitude(amount) % 10),
        ]);
    }
    string_of(&out)
}

/// Writes an amount of millionths with as many decimals as it has.
fn fraction_to_text(amount: i64) -> (text: String)
    ensures
        text@ == fraction_text(amount),
{
    let size = magnitude_of(amount);
    let mut out: Vec<char> = Vec::new();
    if amount < 0 {
        out.push('-');
    }
    assert(out@ == sign_text(amount));
    push_decimal(&mut out, size / 1_000_000);
    out.push('.');
    let ghost head = out@;
    assert(head =~= sign_text(amount) + decimal_text(magnitude(amount) / 1_000_000) + seq!['.']);
    let mut frac: u64 = size % 1_000_000;
    let mut unit: u64 = 1_000_000;
    while frac != 0 && unit >= 10
        invariant
            frac < unit <= 1_000_000,
            out@ + decimals(frac as nat, unit as nat) == head + decimals(
                (size % 1_000_000) as nat,
                1_000_000,
            ),
        decreases unit,
    {
        let step: u64 = unit / 10;
        let ghost before = out@;
        let ghost rest = decimals((frac % step) as nat, step as nat);
        out.push(digit_of((frac / step) % 10));
        assert(out@ + rest =~= before + (seq![digit_char(((frac / step) % 10) as nat)] + rest));
        frac = frac % step;
        unit = step;
    }
    assert(out@ =~= out@ + decimals(frac as nat, unit as nat));
    string_of(&out)
}

impl CellValue {
    /// Reads the value that a cell's text stands for.
    pub fn from_string(s: Option<String>) -> (value: Self)
        ensures
            value@ == sniffed_value(text_of(s)),
    {
        match s {
            Some(text) => {
                if text.as_str().unicode_len() == 0 {
                    return CellValue::Empty;
                }
                match parse_i64(text.as_str()) {
                    Some(i) => CellValue::Integer(i),
                    None => {
                        if is_decimal(text.as_str()) {
                            CellValue::Number(text)
                        } else {
                            CellValue::String(text)
                        }
                    },
                }
            },
            None => CellValue::Empty,
        }
    }

    /// The value of an amount of millionths.
    pub fn from_amount(amount: Option<i64>) -> (value: Self)
        ensures
            value@ == amount_value(amount),
    {
        match amount {
            Some(a) => {
                if a % 1_000_000 == 0 {
                    CellValue::Integer(a / 1_000_000)
                } else {
                    CellValue::Number(fraction_to_text(a))
                }
            },
            None => CellValue::Empty,
        }
    }
}

impl StyledCellValue {
    /// A cell with a value and a style, and nothing else.
    pub fn new(value: CellValue, style: Option<CellStyle>) -> (cell: Self)
        ensures
            cell.value == value,
            cell.style == style,
            !cell.is_weight_cell,
            cell.image is None,
    {
        Self { value, style, is_weight_cell: false, image: None }
    }

    /// A cell that holds a distributed weight of `value` hundredths.
    pub fn weight(value: i64, style: Option<CellStyle>) -> (cell: Self)
        ensures
            cell.value@ == ValueModel::Number(two_decimal_text(value)),
            cell.style == style,
            cell.is_weight_cell,
            cell.image is None,
    {
        Self {
            value: CellValue::Number(hundredths_to_text(value)),
            style,
            is_weight_cell: true,
            image: None,
        }
    }

    /// A cell that shows a picture.
    pub fn with_image(value: CellValue, style: Option<CellStyle>, image: EmbeddedImage) -> (cell:
        Self)
        ensures
            cell.value == value,
            cell.style == style,
            !cell.is_weight_cell,
            cell.image == Some(image),
    {
        Self { value, style, is_weight_cell: false, image: Some(image) }
    }
}

/// How a cell of the rewritten sheet is formatted. The house style is
/// fixed: centred both ways, wrapped text, a thin border.
#[derive(Debug)]
pub struct CellFormat {
    pub centered: bool,
    pub vertically_centered: bool,
    pub wrap_text: bool,
    pub thin_border: bool,
    /// The number format code, where the cell has one of its own.
    pub number_format: Option<String>,
    /// The fill colour as `0xRRGGBB`, where the cell has one.
    pub background: Option<u32>,
}

/// What a `CellFormat` says.
pub struct FormatModel {
    pub centered: bool,
    pub vertically_centered: bool,
    pub wrap_text: bool,
    pub thin_border: bool,
    pub number_format: Option<Seq<char>>,
    pub background: Option<u32>,
}

impl View for CellFormat {
    type V = FormatModel;

    open spec fn view(&self) -> FormatModel {
        FormatModel {
            centered: self.centered,
            vertically_centered: self.vertically_centered,
            wrap_text: self.wrap_text,
            thin_border: self.thin_border,
            number_format: text_of(self.number_format),
            background: self.background,
        }
    }
}

/// The number a hexadecimal digit stands for.
pub open spec fn hex_value(c: char) -> Option<int> {
    if '0' <= c <= '9' {
        Some(c as int - '0' as int)
    } else if 'a' <= c <= 'f' {
        Some(c as int - 'a' as int + 10)
    } else if 'A' <= c <= 'F' {
        Some(c as int - 'A' as int + 10)
    } else {
        None
    }
}

/// The byte that two hexadecimal digits spell.
pub open spec fn hex_pair(high: char, low: char) -> Option<int> {
    match (hex_value(high), hex_value(low)) {
        (Some(h), Some(l)) => Some(16 * h + l),
        _ => None,
    }
}

/// How many `#` stand at the start of `s`.
pub open spec fn hash_run(s: Seq<char>, from: int) -> int
    decreases s.len() - from,
{
    if 0 <= from < s.len() && s[from] == '#' {
        hash_run(s, from + 1)
    } else {
        from
    }
}

/// The colour that a hexadecimal text names, as `0xRRGGBB`: the text must
/// be at least six characters long, and its first six characters after any
/// leading `#` must spell the three bytes.
pub open spec fn color_value(hex: Seq<char>) -> Option<u32> {
    let start = hash_run(hex, 0);
    if hex.len() < 6 || hex.len() - start < 6 {
        None
    } else {
        match (
            hex_pair(hex[start], hex[start + 1]),
            hex_pair(hex[start + 2], hex[start + 3]),
            hex_pair(hex[start + 4], hex[start + 5]),
        ) {
            (Some(r), Some(g), Some(b)) => Some((r * 0x10000 + g * 0x100 + b) as u32),
            _ => None,
        }
    }
}

/// The number a hexadecimal digit stands for.
fn hex_digit(c: char) -> (value: Option<u32>)
    ensures
        match value {
            Some(v) => hex_value(c) == Some(v as int) && v < 16,
            None => hex_value(c) is None,
        },
{
    let code = code_of(c);
    if c >= '0' && c <= '9' {
        Some(code - 48)
    } else if c >= 'a' && c <= 'f' {
        Some(code - 97 + 10)
    } else if c >= 'A' && c <= 'F' {
        Some(code - 65 + 10)
    } else {
        None
    }
}

/// The byte that two characters spell in hexadecimal.
fn hex_byte(high: char, low: char) -> (value: Option<u32>)
    ensures
        match value {
            Some(v) => hex_pair(high, low) == Some(v as int) && v < 256,
            None => hex_pair(high, low) is None,
        },
{
    match (hex_digit(high), hex_digit(low)) {
        (Some(h), Some(l)) => Some(16 * h + l),
        _ => None,
    }
}

/// Reads a colour written as six hexadecimal digits, with or without
/// leading `#`, into `0xRRGGBB`.
pub fn parse_color(hex: &str) -> (color: Option<u32>)
    ensures
        color == color_value(hex@),
{
    let chars = chars_of(hex);
    let mut start: usize = 0;
    while start < chars.len() && chars[start] == '#'
        invariant
            start <= chars@.len(),
            hash_run(chars@, 0) == hash_run(chars@, start as int),
        decreases chars@.len() - start,
    {
        start += 1;
    }
    if chars.len() < 6 || chars.len() - start < 6 {
        return None;
    }
    match (
        hex_byte(chars[start], chars[start + 1]),
        hex_byte(chars[start + 2], chars[start + 3]),
        hex_byte(chars[start + 4], chars[start + 5]),
    ) {
        (Some(r), Some(g), Some(b)) => Some(r * 0x10000 + g * 0x100 + b),
        _ => None,
    }
}

/// The fill colour that a style asks for, where it names one that can be read.
pub open spec fn background_of(style: Option<CellStyleModel>) -> Option<u32> {
    match style {
        Some(s) => match s.background_color {
            Some(hex) => color_value(hex),
            None => None,
        },
        None => None,
    }
}

/// The number format that a style asks for; `General` asks for none.
pub open spec fn number_format_of(style: Option<CellStyleModel>) -> Option<Seq<char>> {
    match style {
        Some(s) => match s.number_format {
            Some(code) if code != "General"@ => Some(code),
            _ => None,
        },
        None => None,
    }
}

/// The format of a cell in the house style with the given number format
/// and fill colour.
pub open spec fn house_format(number_format: Option<Seq<char>>, background: Option<u32>)
    -> FormatModel {
    FormatModel {
        centered: true,
        vertically_centered: true,
        wrap_text: true,
        thin_border: true,
        number_format,
        background,
    }
}

/// What an optional borrowed style says.
pub open spec fn style_of_ref(style: Option<&CellStyle>) -> Option<CellStyleModel> {
    match style {
        Some(s) => Some(s@),
        None => None,
    }
}

/// The fill colour that a style asks for.
fn read_background(style: Option<&CellStyle>) -> (color: Option<u32>)
    ensures
        color == background_of(style_of_ref(style)),
{
    match style {
        Some(s) => match &s.background_color {
            Some(hex) => parse_color(hex.as_str()),
            None => None,
        },
        None => None,
    }
}

/// The house style without number format or fill.
pub fn create_default_format() -> (format: CellFormat)
    ensures
        format@ == house_format(None, None),
{
    CellFormat {
        centered: true,
        vertically_centered: true,
        wrap_text: true,
        thin_border: true,
        number_format: None,
        background: None,
    }
}

/// The house style with the number format and fill colour of `style`.
pub fn create_format_with_style(style: Option<&CellStyle>) -> (format: CellFormat)
    ensures
        format@ == house_format(
            number_format_of(style_of_ref(style)),
            background_of(style_of_ref(style)),
        ),
{
    let number_format = match style {
        Some(s) => match &s.number_format {
            Some(code) => {
                if str_eq(code.as_str(), "General") {
                    None
                } else {
                    Some(code.clone())
                }
            },
            None => None,
        },
        None => None,
    };
    CellFormat {
        centered: true,
        vertically_centered: true,
        wrap_text: true,
        thin_border: true,
        number_format,
        background: read_background(style),
    }
}

/// The house style for a distributed weight: always two decimals, whatever
/// number format `style` has, and the fill colour of `style`.
pub fn create_weight_format(style: Option<&CellStyle>) -> (format: CellFormat)
    ensures
        format@ == house_format(Some("0.00"@), background_of(style_of_ref(style))),
{
    CellFormat {
        centered: true,
        vertically_centered: true,
        wrap_text: true,
        thin_border: true,
        number_format: Some(String::from_str("0.00")),
        background: read_background(style),
    }
}

/// Centred both ways, and nothing else.
pub fn create_center_format() -> (format: CellFormat)
    ensures
        format@ == (FormatModel {
            centered: true,
            vertically_centered: true,
            wrap_text: false,
            thin_border: false,
            number_format: None,
            background: None,
        }),
{
    CellFormat {
        centered: true,
        vertically_centered: true,
        wrap_text: false,
        thin_border: false,
        number_format: None,
        background: None,
    }
}

/// What is written into a cell.
#[derive(Debug)]
pub enum CellContent {
    Text(String),
    /// A number, written in decimal.
    Number(String),
    Integer(i64),
    /// A formula, without a leading `=`.
    Formula(String),
}

/// What a `CellContent` says.
pub enum ContentModel {
    Text(Seq<char>),
    Number(Seq<char>),
    Integer(i64),
    Formula(Seq<char>),
}

impl View for CellContent {
    type V = ContentModel;

    open spec fn view(&self) -> ContentModel {
        match self {
            CellContent::Text(t) => ContentModel::Text(t@),
            CellContent::Number(n) => ContentModel::Number(n@),
            CellContent::Integer(i) => ContentModel::Integer(*i),
            CellContent::Formula(f) => ContentModel::Formula(f@),
        }
    }
}

/// One step of writing the new workbook.
#[derive(Debug)]
pub enum WriteAction {
    /// Give a column its width, in characters as written.
    SetColumnWidth { col: u32, width: String },
    /// Give a row its height, in points.
    SetRowHeight { row: u32, points: u32 },
    /// Write a cell.
    WriteCell { row: u32, col: u32, content: CellContent, format: CellFormat },
    /// Merge a block of cells into one blank cell.
    MergeRange { first_row: u32, first_col: u32, last_row: u32, last_col: u32 },
    /// Put a picture on a cell: scaled to fit a square of `size` pixels,
    /// moved from the cell's corner by the offsets, and tied to the cell so
    /// that it moves and resizes with it. `fallback` is the format under
    /// which the cell is written empty where the picture cannot be put
    /// there after all.
    EmbedImage {
        row: u32,
        col: u32,
        image: EmbeddedImage,
        size: u32,
        x_offset: u32,
        y_offset: u32,
        fallback: CellFormat,
    },
}

/// What a `WriteAction` says.
pub enum ActionModel {
    SetColumnWidth { col: u32, width: Seq<char> },
    SetRowHeight { row: u32, points: u32 },
    WriteCell { row: u32, col: u32, content: ContentModel, format: FormatModel },
    MergeRange { first_row: u32, first_col: u32, last_row: u32, last_col: u32 },
    EmbedImage {
        row: u32,
        col: u32,
        image: ImageModel,
        size: u32,
        x_offset: u32,
        y_offset: u32,
        fallback: FormatModel,
    },
}

impl View for WriteAction {
    type V = ActionModel;

    open spec fn view(&self) -> ActionModel {
        match self {
            WriteAction::SetColumnWidth { col, width } => ActionModel::SetColumnWidth {
                col: *col,
                width: width@,
            },
            WriteAction::SetRowHeight { row, points } => ActionModel::SetRowHeight {
                row: *row,
                points: *points,
            },
            WriteAction::WriteCell { row, col, content, format } => ActionModel::WriteCell {
                row: *row,
                col: *col,
                content: content@,
                format: format@,
            },
            WriteAction::MergeRange {
                first_row,
                first_col,
                last_row,
                last_col,
            } => ActionModel::MergeRange {
                first_row: *first_row,
                first_col: *first_col,
                last_row: *last_row,
                last_col: *last_col,
            },
            WriteAction::EmbedImage {
                row,
                col,
                image,
                size,
                x_offset,
                y_offset,
                fallback,
            } => ActionModel::EmbedImage {
                row: *row,
                col: *col,
                image: image@,
                size: *size,
                x_offset: *x_offset,
                y_offset: *y_offset,
                fallback: fallback@,
            },
        }
    }
}

/// What a list of steps says.
pub open spec fn actions_model(actions: Seq<WriteAction>) -> Seq<ActionModel> {
    actions.map_values(|a: WriteAction| a@)
}

/// What is written for a value: a formula goes without its leading `=`,
/// which the writer puts back, and an empty value is written as empty text,
/// so that the cell still gets its format.
pub open spec fn content_of(value: ValueModel) -> ContentModel {
    match value {
        ValueModel::String(s) => ContentModel::Text(s),
        ValueModel::Number(n) => ContentModel::Number(n),
        ValueModel::Integer(i) => ContentModel::Integer(i),
        ValueModel::Formula(f) => ContentModel::Formula(
            if f.len() > 0 && f[0] == '=' {
                f.skip(1)
            } else {
                f
            },
        ),
        ValueModel::Empty => ContentModel::Text(Seq::empty()),
    }
}

/// The step that writes `value` into the cell `(row, col)` under `format`.
pub fn write_cell(row: u32, col: u32, value: &CellValue, format: CellFormat) -> (action:
    WriteAction)
    ensures
        action@ == (ActionModel::WriteCell {
            row,
            col,
            content: content_of(value@),
            format: format@,
        }),
{
    let content = match value {
        CellValue::String(s) => CellContent::Text(s.clone()),
        CellValue::Number(n) => CellContent::Number(n.clone()),
        CellValue::Integer(i) => CellContent::Integer(*i),
        CellValue::Formula(f) => {
            let chars = chars_of(f.as_str());
            if chars.len() > 0 && chars[0] == '=' {
                let rest = crate::text::string_of_range(&chars, 1, chars.len());
                assert(chars@.subrange(1, chars@.len() as int) == chars@.skip(1));
                CellContent::Formula(rest)
            } else {
                CellContent::Formula(f.clone())
            }
        },
        CellValue::Empty => CellContent::Text(String::new()),
    };
    WriteAction::WriteCell { row, col, content, format }
}

/// The step that gives column `col` the width `width`.
pub fn set_column_width(col: u32, width: &str) -> (action: WriteAction)
    ensures
        action@ == (ActionModel::SetColumnWidth { col, width: width@ }),
{
    WriteAction::SetColumnWidth { col, width: String::from_str(width) }
}

/// The step that gives row `row` a height of `points` points.
pub fn set_row_height(row: u32, points: u32) -> (action: WriteAction)
    ensures
        action@ == (ActionModel::SetRowHeight { row, points }),
{
    WriteAction::SetRowHeight { row, points }
}

/// The step that merges a block of cells.
pub fn merge_range(first_row: u32, first_col: u32, last_row: u32, last_col: u32) -> (action:
    WriteAction)
    ensures
        action@ == (ActionModel::MergeRange { first_row, first_col, last_row, last_col }),
{
    WriteAction::MergeRange { first_row, first_col, last_row, last_col }
}

/// Why a picture of `data` cannot be embedded, if it cannot: it is empty, or
/// it is shorter than the eight bytes that tell its format.
pub open spec fn image_complaint(data: Seq<u8>) -> Option<Seq<char>> {
    if data.len() == 0 {
        Some("图片数据为空"@)
    } else if data.len() < 8 {
        Some("图片数据太短，无法识别格式"@)
    } else {
        None
    }
}

/// The step that puts a picture on a cell, scaled into a square of `size`
/// pixels and moved by the given offsets; an `IMAGE_ERROR` for a picture
/// that cannot be embedded. `fallback` is the format of the empty cell that
/// stands in for a picture which the workbook will not take.
pub fn embed_image_at(
    row: u32,
    col: u32,
    image_data: &EmbeddedImage,
    size: u32,
    x_offset: u32,
    y_offset: u32,
    fallback: CellFormat,
) -> (action: Result<WriteAction, CommandError>)
    ensures
        match action {
            Ok(a) => image_complaint(image_data@.data) is None && a@ == (ActionModel::EmbedImage {
                row,
                col,
                image: image_data@,
                size,
                x_offset,
                y_offset,
                fallback: fallback@,
            }),
            Err(e) => image_complaint(image_data@.data) == Some(e.message@) && e.code@
                == "IMAGE_ERROR"@,
        },
{
    if image_data.data.len() == 0 {
        return Err(CommandError::new("图片数据为空", "IMAGE_ERROR"));
    }
    if image_data.data.len() < 8 {
        return Err(CommandError::new("图片数据太短，无法识别格式", "IMAGE_ERROR"));
    }
    Ok(
        WriteAction::EmbedImage {
            row,
            col,
            image: image_data.clone(),
            size,
            x_offset,
            y_offset,
            fallback,
        },
    )
}

/// The step that puts a picture on a cell of the usual size: 18 pixels
/// square, 21 pixels from the left and 4 from the top, which centres it in
/// a cell of about 60 by 26 pixels.
pub fn embed_image_to_cell(
    row: u32,
    col: u32,
    image_data: &EmbeddedImage,
    fallback: CellFormat,
) -> (action: Result<WriteAction, CommandError>)
    ensures
        match action {
            Ok(a) => image_complaint(image_data@.data) is None && a@ == (ActionModel::EmbedImage {
                row,
                col,
                image: image_data@,
                size: 18,
                x_offset: 21,
                y_offset: 4,
                fallback: fallback@,
            }),
            Err(e) => image_complaint(image_data@.data) == Some(e.message@) && e.code@
                == "IMAGE_ERROR"@,
        },
{
    embed_image_at(row, col, image_data, 18, 21, 4, fallback)
}

/// Half of what `outer` has more than `inner`, and nothing where it has less.
pub open spec fn centering_offset(outer: u32, inner: u32) -> u32 {
    if outer > inner {
        ((outer - inner) / 2) as u32
    } else {
        0
    }
}

/// The step that puts a picture of `img_size` pixels square in the middle
/// of a cell of the given size in pixels.
pub fn embed_image_to_cell_with_size(
    row: u32,
    col: u32,
    image_data: &EmbeddedImage,
    img_size: u32,
    cell_width: u32,
    cell_height: u32,
    fallback: CellFormat,
) -> (action: Result<WriteAction, CommandError>)
    ensures
        match action {
            Ok(a) => image_complaint(image_data@.data) is None && a@ == (ActionModel::EmbedImage {
                row,
                col,
                image: image_data@,
                size: img_size,
                x_offset: centering_offset(cell_width, img_size),
                y_offset: centering_offset(cell_height, img_size),
                fallback: fallback@,
            }),
            Err(e) => image_complaint(image_data@.data) == Some(e.message@) && e.code@
                == "IMAGE_ERROR"@,
        },
{
    let x_offset: u32 = if cell_width > img_size {
        (cell_width - img_size) / 2
    } else {
        0
    };
    let y_offset: u32 = if cell_height > img_size {
        (cell_height - img_size) / 2
    } else {
        0
    };
    embed_image_at(row, col, image_data, img_size, x_offset, y_offset, fallback)
}

/// What follows where the workbook will not take the picture of a step:
/// the cell is written empty under the step's fallback format. A step that
/// puts no picture has nothing to fall back to.
pub open spec fn without_picture(action: ActionModel) -> Option<ActionModel> {
    match action {
        ActionModel::EmbedImage { row, col, fallback, .. } => Some(
            ActionModel::WriteCell {
                row,
                col,
                content: ContentModel::Text(Seq::empty()),
                format: fallback,
            },
        ),
        _ => None,
    }
}

/// A copy of a format.
fn copy_format(format: &CellFormat) -> (copy: CellFormat)
    ensures
        copy@ == format@,
{
    CellFormat {
        centered: format.centered,
        vertically_centered: format.vertically_centered,
        wrap_text: format.wrap_text,
        thin_border: format.thin_border,
        number_format: match &format.number_format {
            Some(code) => Some(code.clone()),
            None => None,
        },
        background: format.background,
    }
}

/// The step that writes the cell of a picture empty, for a picture that
/// the workbook would not take.
pub fn write_without_picture(action: &WriteAction) -> (step: Option<WriteAction>)
    ensures
        match step {
            Some(s) => without_picture(action@) == Some(s@),
            None => without_picture(action@) is None,
        },
{
    match action {
        WriteAction::EmbedImage { row, col, fallback, .. } => Some(
            write_cell(*row, *col, &CellValue::Empty, copy_format(fallback)),
        ),
        _ => None,
    }
}

} // verus!
