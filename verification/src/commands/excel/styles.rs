//! The styles part: number formats, fills, and the cell formats that pick
//! among them.

use crate::commands::error::CommandError;
use crate::commands::excel::xml::{
    attribute_value, complaint_of, document_events, events_model, find_attribute, is_closing,
    is_document, read_events, AttributeModel, EventModel, XmlElement, XmlEvent,
};
use crate::numeric::{parse_u32, u32_value};
use crate::text::{chars_of, str_eq, string_of_range, text_of, text_of_ref, updated};
use crate::text_map::{lemma_string_values_empty, lemma_string_values_insert, string_values};
use std::collections::HashMap;
use vstd::prelude::*;

verus! {

broadcast use vstd::std_specs::hash::group_hash_axioms;

/// How a cell is to be shown, as far as it departs from the default.
#[derive(Debug, Default)]
pub struct CellStyle {
    /// The number format code, such as `0.00` or `General`.
    pub number_format: Option<String>,
    /// The fill colour, as six hexadecimal digits.
    pub background_color: Option<String>,
    pub font_color: Option<String>,
    pub is_bold: bool,
}

/// What a `CellStyle` says.
pub struct CellStyleModel {
    pub number_format: Option<Seq<char>>,
    pub background_color: Option<Seq<char>>,
    pub font_color: Option<Seq<char>>,
    pub is_bold: bool,
}

impl View for CellStyle {
    type V = CellStyleModel;

    open spec fn view(&self) -> CellStyleModel {
        CellStyleModel {
            number_format: text_of(self.number_format),
            background_color: text_of(self.background_color),
            font_color: text_of(self.font_color),
            is_bold: self.is_bold,
        }
    }
}

impl Clone for CellStyle {
    fn clone(&self) -> (copy: Self)
        ensures
            copy == *self,
    {
        CellStyle {
            number_format: clone_text(&self.number_format),
            background_color: clone_text(&self.background_color),
            font_color: clone_text(&self.font_color),
            is_bold: self.is_bold,
        }
    }
}

/// A copy of an optional string.
pub fn clone_text(value: &Option<String>) -> (copy: Option<String>)
    ensures
        copy == *value,
{
    match value {
        Some(s) => Some(s.clone()),
        None => None,
    }
}

/// One cell format: which number format and which fill it picks.
#[derive(Debug, Default, Clone, Copy)]
pub struct CellXf {
    pub num_fmt_id: u32,
    pub fill_id: u32,
    pub apply_number_format: bool,
    pub apply_fill: bool,
}

/// The tables of a styles part.
#[derive(Debug)]
pub struct StylesInfo {
    /// From number format id to format code.
    pub number_formats: HashMap<u32, String>,
    /// The colour of each fill, in order; `None` for one without a solid colour.
    pub fills: Vec<Option<String>>,
    /// The cell formats, in order; a cell's style index picks one.
    pub cell_xfs: Vec<CellXf>,
}

/// What a `StylesInfo` says.
pub struct StylesModel {
    pub number_formats: Map<u32, Seq<char>>,
    pub fills: Seq<Option<Seq<char>>>,
    pub cell_xfs: Seq<CellXf>,
}

/// What a list of fills says.
pub open spec fn fills_model(fills: Seq<Option<String>>) -> Seq<Option<Seq<char>>> {
    fills.map_values(|f: Option<String>| text_of(f))
}

impl View for StylesInfo {
    type V = StylesModel;

    open spec fn view(&self) -> StylesModel {
        StylesModel {
            number_formats: string_values(self.number_formats@),
            fills: fills_model(self.fills@),
            cell_xfs: self.cell_xfs@,
        }
    }
}

/// The number formats that every workbook has without declaring them.
pub open spec fn built_in_formats() -> Map<u32, Seq<char>> {
    Map::<u32, Seq<char>>::empty().insert(0, "General"@).insert(1, "0"@).insert(2, "0.00"@).insert(
        49,
        "@"@,
    )
}

/// The tables of a workbook without a styles part.
pub open spec fn default_styles() -> StylesModel {
    StylesModel { number_formats: Map::empty(), fills: Seq::empty(), cell_xfs: Seq::empty() }
}

impl StylesInfo {
    /// The tables of a workbook without a styles part: all empty.
    pub fn empty() -> (styles: Self)
        ensures
            styles@ == default_styles(),
    {
        proof {
            lemma_string_values_empty::<u32>();
        }
        let styles = StylesInfo {
            number_formats: HashMap::new(),
            fills: Vec::new(),
            cell_xfs: Vec::new(),
        };
        assert(fills_model(styles.fills@) == Seq::<Option<Seq<char>>>::empty());
        styles
    }
}

/// The style that the cell format at `index` stands for: the format code of
/// its number format where the table has one, and the colour of its fill.
/// An index past the table gives the default style.
pub open spec fn resolved_style(styles: StylesModel, index: u32) -> CellStyleModel {
    if index < styles.cell_xfs.len() {
        let xf = styles.cell_xfs[index as int];
        CellStyleModel {
            number_format: if styles.number_formats.contains_key(xf.num_fmt_id) {
                Some(styles.number_formats[xf.num_fmt_id])
            } else if xf.num_fmt_id == 0 {
                Some("General"@)
            } else {
                None
            },
            background_color: if xf.fill_id < styles.fills.len() {
                styles.fills[xf.fill_id as int]
            } else {
                None
            },
            font_color: None,
            is_bold: false,
        }
    } else {
        CellStyleModel {
            number_format: None,
            background_color: None,
            font_color: None,
            is_bold: false,
        }
    }
}

/// Resolves a cell's style index to the style it stands for.
pub fn resolve_cell_style(style_idx: u32, styles: &StylesInfo) -> (style: CellStyle)
    ensures
        style@ == resolved_style(styles@, style_idx),
{
    let mut style = CellStyle {
        number_format: None,
        background_color: None,
        font_color: None,
        is_bold: false,
    };
    if (style_idx as usize) < styles.cell_xfs.len() {
        let xf = styles.cell_xfs[style_idx as usize];
        match styles.number_formats.get(&xf.num_fmt_id) {
            Some(format) => {
                style.number_format = Some(format.clone());
            },
            None => {
                if xf.num_fmt_id == 0 {
                    style.number_format = Some(String::from_str("General"));
                }
            },
        }
        if (xf.fill_id as usize) < styles.fills.len() {
            style.background_color = clone_text(&styles.fills[xf.fill_id as usize]);
        }
    }
    style
}

/// Where the first cell format keeps the default number format and has no
/// fill colour, style index 0 shows as `General` without a background.
pub proof fn lemma_default_style_is_general(styles: StylesModel)
    requires
        styles.cell_xfs.len() > 0,
        styles.cell_xfs[0].num_fmt_id == 0,
        styles.number_formats.contains_key(0) ==> styles.number_formats[0] == "General"@,
        styles.cell_xfs[0].fill_id < styles.fills.len() ==> styles.fills[styles.cell_xfs[0].fill_id as int] is None,
    ensures
        resolved_style(styles, 0).number_format == Some("General"@),
        resolved_style(styles, 0).background_color is None,
{
}

/// The number that an attribute gives, or zero where it is absent or no number.
pub open spec fn number_or_zero(value: Option<Seq<char>>) -> u32 {
    match value {
        Some(v) => match u32_value(v) {
            Some(n) => n,
            None => 0,
        },
        None => 0,
    }
}

/// The number that an attribute gives, if it is there and is one.
pub open spec fn number_if_any(value: Option<Seq<char>>) -> Option<u32> {
    match value {
        Some(v) => u32_value(v),
        None => None,
    }
}

/// Whether an attribute is there and says `1` or `true`.
pub open spec fn says_true(value: Option<Seq<char>>) -> bool {
    match value {
        Some(v) => v == "1"@ || v == "true"@,
        None => false,
    }
}

/// The cell format that an `xf` tag describes.
pub open spec fn cell_xf_of(attributes: Seq<AttributeModel>) -> CellXf {
    CellXf {
        num_fmt_id: number_or_zero(attribute_value(attributes, "numFmtId"@)),
        fill_id: number_or_zero(attribute_value(attributes, "fillId"@)),
        apply_number_format: says_true(attribute_value(attributes, "applyNumberFormat"@)),
        apply_fill: says_true(attribute_value(attributes, "applyFill"@)),
    }
}

/// The colour in an `rgb` attribute: its last six characters, the leading
/// ones being the opacity. A shorter value names no colour.
pub open spec fn rgb_of(value: Option<Seq<char>>) -> Option<Seq<char>> {
    match value {
        Some(v) if v.len() >= 6 => Some(v.skip(v.len() - 6)),
        _ => None,
    }
}

/// What has been gathered from a styles part so far.
pub struct StylesProgress {
    pub styles: StylesModel,
    pub in_num_fmts: bool,
    pub in_fills: bool,
    pub in_cell_xfs: bool,
    /// The colour seen in the open `fill` element.
    pub fill_color: Option<Seq<char>>,
    pub done: bool,
    /// The reader's complaint, if it gave up.
    pub failure: Option<Seq<char>>,
}

/// The effect of an opening or self-closing tag on the gathering.
pub open spec fn styles_open(
    state: StylesProgress,
    name: Seq<char>,
    attributes: Seq<AttributeModel>,
) -> StylesProgress {
    if name == "numFmts"@ {
        StylesProgress { in_num_fmts: true, ..state }
    } else if name == "numFmt"@ && state.in_num_fmts {
        match (
            number_if_any(attribute_value(attributes, "numFmtId"@)),
            attribute_value(attributes, "formatCode"@),
        ) {
            (Some(id), Some(code)) => StylesProgress {
                styles: StylesModel {
                    number_formats: state.styles.number_formats.insert(id, code),
                    ..state.styles
                },
                ..state
            },
            _ => state,
        }
    } else if name == "fills"@ {
        StylesProgress { in_fills: true, ..state }
    } else if name == "fill"@ && state.in_fills {
        StylesProgress { fill_color: None, ..state }
    } else if name == "patternFill"@ && state.in_fills {
        if attribute_value(attributes, "patternType"@) == Some("none"@) {
            StylesProgress { fill_color: None, ..state }
        } else {
            state
        }
    } else if name == "fgColor"@ && state.in_fills {
        StylesProgress {
            fill_color: updated(state.fill_color, rgb_of(attribute_value(attributes, "rgb"@))),
            ..state
        }
    } else if name == "cellXfs"@ {
        StylesProgress { in_cell_xfs: true, ..state }
    } else if name == "xf"@ && state.in_cell_xfs {
        StylesProgress {
            styles: StylesModel {
                cell_xfs: state.styles.cell_xfs.push(cell_xf_of(attributes)),
                ..state.styles
            },
            ..state
        }
    } else {
        state
    }
}

/// The effect of a closing tag on the gathering: a `fill` that closes adds
/// its colour, or the lack of one, to the list of fills.
pub open spec fn styles_close(state: StylesProgress, name: Seq<char>) -> StylesProgress {
    if name == "numFmts"@ {
        StylesProgress { in_num_fmts: false, ..state }
    } else if name == "fill"@ && state.in_fills {
        StylesProgress {
            styles: StylesModel { fills: state.styles.fills.push(state.fill_color), ..state.styles },
            fill_color: None,
            ..state
        }
    } else if name == "fills"@ {
        StylesProgress { in_fills: false, ..state }
    } else if name == "cellXfs"@ {
        StylesProgress { in_cell_xfs: false, ..state }
    } else {
        state
    }
}

/// One event's effect on the gathering.
pub open spec fn styles_step(state: StylesProgress, event: EventModel) -> StylesProgress {
    if state.done {
        state
    } else {
        match event {
            EventModel::Start(e) | EventModel::Empty(e) => styles_open(
                state,
                e.name,
                e.attributes,
            ),
            EventModel::End(name) => styles_close(state, name),
            EventModel::Eof => StylesProgress { done: true, ..state },
            EventModel::Failed(message) => StylesProgress {
                done: true,
                failure: Some(message),
                ..state
            },
            _ => state,
        }
    }
}

/// What a styles part says, event by event, starting from the built-in
/// number formats.
pub open spec fn styles_progress(events: Seq<EventModel>) -> StylesProgress
    decreases events.len(),
{
    if events.len() == 0 {
        StylesProgress {
            styles: StylesModel {
                number_formats: built_in_formats(),
                fills: Seq::empty(),
                cell_xfs: Seq::empty(),
            },
            in_num_fmts: false,
            in_fills: false,
            in_cell_xfs: false,
            fill_color: None,
            done: false,
            failure: None,
        }
    } else {
        styles_step(styles_progress(events.drop_last()), events.last())
    }
}

/// The message of the error that malformed styles give.
pub open spec fn styles_failure_text(complaint: Seq<char>) -> Seq<char> {
    "样式 XML 解析错误: "@ + complaint
}

/// The gathering of a styles part, as it runs.
struct StylesState {
    styles: StylesInfo,
    in_num_fmts: bool,
    in_fills: bool,
    in_cell_xfs: bool,
    fill_color: Option<String>,
    done: bool,
    failure: Option<String>,
}

impl View for StylesState {
    type V = StylesProgress;

    closed spec fn view(&self) -> StylesProgress {
        StylesProgress {
            styles: self.styles@,
            in_num_fmts: self.in_num_fmts,
            in_fills: self.in_fills,
            in_cell_xfs: self.in_cell_xfs,
            fill_color: text_of(self.fill_color),
            done: self.done,
            failure: text_of(self.failure),
        }
    }
}

/// Reads an attribute as a number, zero where it is absent or no number.
fn read_number_or_zero(value: Option<&String>) -> (n: u32)
    ensures
        n == number_or_zero(text_of_ref(value)),
{
    match value {
        Some(v) => match parse_u32(v.as_str()) {
            Some(n) => n,
            None => 0,
        },
        None => 0,
    }
}

/// Reads an attribute as a flag.
fn read_flag(value: Option<&String>) -> (flag: bool)
    ensures
        flag == says_true(text_of_ref(value)),
{
    match value {
        Some(v) => str_eq(v.as_str(), "1") || str_eq(v.as_str(), "true"),
        None => false,
    }
}

/// Reads the colour out of an `rgb` attribute.
fn read_rgb(value: Option<&String>) -> (color: Option<String>)
    ensures
        text_of(color) == rgb_of(text_of_ref(value)),
{
    match value {
        Some(v) => {
            let chars = chars_of(v.as_str());
            if chars.len() >= 6 {
                let color = string_of_range(&chars, chars.len() - 6, chars.len());
                assert(chars@.subrange(chars@.len() - 6, chars@.len() as int) == chars@.skip(
                    chars@.len() - 6,
                ));
                Some(color)
            } else {
                None
            }
        },
        None => None,
    }
}

impl StylesState {
    fn open(&mut self, element: &XmlElement)
        ensures
            final(self)@ == styles_open(old(self)@, element@.name, element@.attributes),
    {
        let name = element.name.as_str();
        if str_eq(name, "numFmts") {
            self.in_num_fmts = true;
        } else if str_eq(name, "numFmt") && self.in_num_fmts {
            let id = match find_attribute(element, "numFmtId") {
                Some(v) => parse_u32(v.as_str()),
                None => None,
            };
            let code = find_attribute(element, "formatCode");
            match (id, code) {
                (Some(id), Some(code)) => {
                    let code = code.clone();
                    proof {
                        lemma_string_values_insert(self.styles.number_formats@, id, code);
                    }
                    self.styles.number_formats.insert(id, code);
                },
                _ => {},
            }
        } else if str_eq(name, "fills") {
            self.in_fills = true;
        } else if str_eq(name, "fill") && self.in_fills {
            self.fill_color = None;
        } else if str_eq(name, "patternFill") && self.in_fills {
            let none = match find_attribute(element, "patternType") {
                Some(v) => str_eq(v.as_str(), "none"),
                None => false,
            };
            if none {
                self.fill_color = None;
            }
        } else if str_eq(name, "fgColor") && self.in_fills {
            match read_rgb(find_attribute(element, "rgb")) {
                Some(color) => {
                    self.fill_color = Some(color);
                },
                None => {},
            }
        } else if str_eq(name, "cellXfs") {
            self.in_cell_xfs = true;
        } else if str_eq(name, "xf") && self.in_cell_xfs {
            let xf = CellXf {
                num_fmt_id: read_number_or_zero(find_attribute(element, "numFmtId")),
                fill_id: read_number_or_zero(find_attribute(element, "fillId")),
                apply_number_format: read_flag(find_attribute(element, "applyNumberFormat")),
                apply_fill: read_flag(find_attribute(element, "applyFill")),
            };
            self.styles.cell_xfs.push(xf);
        }
    }

    fn close(&mut self, name: &str)
        ensures
            final(self)@ == styles_close(old(self)@, name@),
    {
        if str_eq(name, "numFmts") {
            self.in_num_fmts = false;
        } else if str_eq(name, "fill") && self.in_fills {
            let color = self.fill_color.take();
            let ghost before = self.styles.fills@;
            self.styles.fills.push(color);
            assert(fills_model(self.styles.fills@) == fills_model(before).push(text_of(color)));
        } else if str_eq(name, "fills") {
            self.in_fills = false;
        } else if str_eq(name, "cellXfs") {
            self.in_cell_xfs = false;
        }
    }

    fn step(&mut self, event: &XmlEvent)
        ensures
            final(self)@ == styles_step(old(self)@, event@),
    {
        if self.done {
            return ;
        }
        match event {
            XmlEvent::Start(element) | XmlEvent::Empty(element) => {
                self.open(element);
            },
            XmlEvent::End(name) => {
                self.close(name.as_str());
            },
            XmlEvent::Eof => {
                self.done = true;
            },
            XmlEvent::Failed(message) => {
                self.done = true;
                self.failure = Some(message.clone());
            },
            _ => {},
        }
    }
}

/// The tables that every gathering starts from: the built-in number formats.
fn built_in_styles() -> (styles: StylesInfo)
    ensures
        styles@ == styles_progress(Seq::empty()).styles,
{
    let mut number_formats: HashMap<u32, String> = HashMap::new();
    proof {
        lemma_string_values_empty::<u32>();
    }
    let general = String::from_str("General");
    proof {
        lemma_string_values_insert(number_formats@, 0u32, general);
    }
    number_formats.insert(0, general);
    let whole = String::from_str("0");
    proof {
        lemma_string_values_insert(number_formats@, 1u32, whole);
    }
    number_formats.insert(1, whole);
    let cents = String::from_str("0.00");
    proof {
        lemma_string_values_insert(number_formats@, 2u32, cents);
    }
    number_formats.insert(2, cents);
    let text = String::from_str("@");
    proof {
        lemma_string_values_insert(number_formats@, 49u32, text);
    }
    number_formats.insert(49, text);
    let styles = StylesInfo { number_formats, fills: Vec::new(), cell_xfs: Vec::new() };
    assert(fills_model(styles.fills@) == Seq::<Option<Seq<char>>>::empty());
    styles
}

/// Gathers the tables that a styles part's events declare. Malformed text
/// is an error with code `PARSE_ERROR`, whatever was gathered before it.
pub fn styles_from_events(events: &Vec<XmlEvent>) -> (parsed: Result<StylesInfo, CommandError>)
    ensures
        match parsed {
            Ok(styles) => styles_progress(events_model(events@)).failure is None && styles@
                == styles_progress(events_model(events@)).styles,
            Err(error) => styles_progress(events_model(events@)).failure is Some
                && error.code@ == "PARSE_ERROR"@ && error.message@ == styles_failure_text(
                styles_progress(events_model(events@)).failure->Some_0,
            ),
        },
{
    let ghost model = events_model(events@);
    let mut state = StylesState {
        styles: built_in_styles(),
        in_num_fmts: false,
        in_fills: false,
        in_cell_xfs: false,
        fill_color: None,
        done: false,
        failure: None,
    };
    let mut i: usize = 0;
    proof {
        assert(model.take(0) == Seq::<EventModel>::empty());
    }
    while i < events.len()
        invariant
            i <= events@.len(),
            model == events_model(events@),
            state@ == styles_progress(model.take(i as int)),
        decreases events@.len() - i,
    {
        proof {
            assert(model.take(i + 1).drop_last() == model.take(i as int));
            assert(model.take(i + 1).last() == events@[i as int]@);
        }
        state.step(&events[i]);
        i += 1;
    }
    proof {
        assert(model.take(i as int) == model);
    }
    match state.failure {
        Some(complaint) => {
            let mut message = String::from_str("样式 XML 解析错误: ");
            message.append(complaint.as_str());
            Err(CommandError::new(message.as_str(), "PARSE_ERROR"))
        },
        None => Ok(state.styles),
    }
}

/// Reads a styles part into its tables. The events of the text end with
/// their only `Eof` or `Failed`, so the part fails exactly where the text is
/// malformed.
pub fn parse_styles_xml(xml: &str) -> (parsed: Result<StylesInfo, CommandError>)
    ensures
        is_document(document_events(xml@)),
        match parsed {
            Ok(styles) => styles_progress(document_events(xml@)).failure is None && styles@
                == styles_progress(document_events(xml@)).styles,
            Err(error) => styles_progress(document_events(xml@)).failure is Some && error.code@
                == "PARSE_ERROR"@ && error.message@ == styles_failure_text(
                styles_progress(document_events(xml@)).failure->Some_0,
            ),
        },
{
    let events = read_events(xml);
    styles_from_events(&events)
}

/// Before the event that closes it, a run of events leaves the style
/// tables open and without a failure.
proof fn lemma_styles_go_on(events: Seq<EventModel>)
    requires
        forall|i: int| 0 <= i < events.len() ==> !is_closing(#[trigger] events[i]),
    ensures
        !styles_progress(events).done,
        styles_progress(events).failure is None,
    decreases events.len(),
{
    if events.len() > 0 {
        lemma_styles_go_on(events.drop_last());
    }
}

/// The style tables fail exactly where their text is malformed: the
/// failure of a run of events is the reader's complaint that ends it, and
/// there is none where the run reaches the end of the text.
pub proof fn lemma_styles_fail_with_the_text(events: Seq<EventModel>)
    requires
        is_document(events),
    ensures
        styles_progress(events).failure == complaint_of(events.last()),
{
    lemma_styles_go_on(events.drop_last());
}

} // verus!
