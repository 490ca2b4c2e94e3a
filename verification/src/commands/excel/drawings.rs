//! The two places a package keeps track of its pictures: the cell-image list,
//! which names pictures that formulas show, and the drawing, which anchors
//! pictures over the grid.

use crate::commands::error::{CommandError, ErrorModel};
use crate::commands::excel::xml::{
    complaint_of, document_events, events_model, find_local_attribute, has_local_name,
    is_closing, is_document, local_attribute_value, local_name, part_error, part_failure,
    read_events, EventModel, XmlElement, XmlEvent,
};
use crate::numeric::{parse_u32, u32_value};
use crate::text::{begins_with, starts_with, text_of, updated};
use crate::text_map::{lemma_text_values_empty, lemma_text_values_insert, text_values, TextMap};
use vstd::prelude::*;

verus! {

/// Takes over the tag's value for `key`, if it has one.
fn update_from(seen: &mut Option<String>, element: &XmlElement, key: &str)
    ensures
        text_of(*final(seen)) == updated(
            text_of(*old(seen)),
            local_attribute_value(element@.attributes, key@),
        ),
{
    match find_local_attribute(element, key) {
        Some(value) => {
            *seen = Some(value.clone());
        },
        None => {},
    }
}

/// What has been gathered from a cell-image list so far.
pub struct CellImagesModel {
    /// From picture id to relationship id.
    pub ids: Map<Seq<char>, Seq<char>>,
    /// A `cellImage` element is open.
    pub inside: bool,
    /// The picture id seen in the open element.
    pub name: Option<Seq<char>>,
    /// The relationship id seen in the open element.
    pub embed: Option<Seq<char>>,
    pub done: bool,
    /// The reader's complaint, if it gave up.
    pub failure: Option<Seq<char>>,
}

/// One event's effect on the gathering. Inside a `cellImage`, a `cNvPr` tag
/// names the picture and a `blip` tag embeds a relationship; the element's
/// end records the pair if both were seen.
pub open spec fn cell_images_step(state: CellImagesModel, event: EventModel) -> CellImagesModel {
    if state.done {
        state
    } else {
        match event {
            EventModel::Start(e) | EventModel::Empty(e) => {
                if local_name(e.name) == "cellImage"@ {
                    CellImagesModel { inside: true, name: None, embed: None, ..state }
                } else if local_name(e.name) == "cNvPr"@ && state.inside {
                    CellImagesModel {
                        name: updated(state.name, local_attribute_value(e.attributes, "name"@)),
                        ..state
                    }
                } else if local_name(e.name) == "blip"@ && state.inside {
                    CellImagesModel {
                        embed: updated(state.embed, local_attribute_value(e.attributes, "embed"@)),
                        ..state
                    }
                } else {
                    state
                }
            },
            EventModel::End(name) => {
                if local_name(name) == "cellImage"@ {
                    CellImagesModel {
                        ids: match (state.name, state.embed) {
                            (Some(id), Some(rid)) => state.ids.insert(id, rid),
                            _ => state.ids,
                        },
                        inside: false,
                        name: None,
                        embed: None,
                        ..state
                    }
                } else {
                    state
                }
            },
            EventModel::Eof => CellImagesModel { done: true, ..state },
            EventModel::Failed(complaint) => CellImagesModel {
                done: true,
                failure: Some(complaint),
                ..state
            },
            _ => state,
        }
    }
}

/// What a cell-image list says, event by event from nothing.
pub open spec fn cell_images_of(events: Seq<EventModel>) -> CellImagesModel
    decreases events.len(),
{
    if events.len() == 0 {
        CellImagesModel {
            ids: Map::empty(),
            inside: false,
            name: None,
            embed: None,
            done: false,
            failure: None,
        }
    } else {
        cell_images_step(cell_images_of(events.drop_last()), events.last())
    }
}

/// The gathering of a cell-image list, as it runs.
struct CellImagesState {
    ids: TextMap<String>,
    inside: bool,
    name: Option<String>,
    embed: Option<String>,
    done: bool,
    failure: Option<String>,
}

impl View for CellImagesState {
    type V = CellImagesModel;

    closed spec fn view(&self) -> CellImagesModel {
        CellImagesModel {
            ids: text_values(self.ids@),
            inside: self.inside,
            name: text_of(self.name),
            embed: text_of(self.embed),
            done: self.done,
            failure: text_of(self.failure),
        }
    }
}

impl CellImagesState {
    fn step(&mut self, event: &XmlEvent)
        ensures
            final(self)@ == cell_images_step(old(self)@, event@),
    {
        if self.done {
            return ;
        }
        match event {
            XmlEvent::Start(element) | XmlEvent::Empty(element) => {
                if has_local_name(element.name.as_str(), "cellImage") {
                    self.inside = true;
                    self.name = None;
                    self.embed = None;
                } else if has_local_name(element.name.as_str(), "cNvPr") && self.inside {
                    update_from(&mut self.name, element, "name");
                } else if has_local_name(element.name.as_str(), "blip") && self.inside {
                    update_from(&mut self.embed, element, "embed");
                }
            },
            XmlEvent::End(name) => {
                if has_local_name(name.as_str(), "cellImage") {
                    let id = self.name.take();
                    let rid = self.embed.take();
                    match (id, rid) {
                        (Some(id), Some(rid)) => {
                            proof {
                                lemma_text_values_insert(self.ids@, id@, rid);
                            }
                            self.ids.insert(id, rid);
                        },
                        _ => {},
                    }
                    self.inside = false;
                }
            },
            XmlEvent::Eof => {
                self.done = true;
            },
            XmlEvent::Failed(complaint) => {
                self.done = true;
                self.failure = Some(complaint.clone());
            },
            _ => {},
        }
    }
}

/// What a cell-image list comes to: its picture ids, or the error of the
/// malformed text in it.
pub open spec fn cell_images_result(events: Seq<EventModel>) -> Result<
    Map<Seq<char>, Seq<char>>,
    ErrorModel,
> {
    match cell_images_of(events).failure {
        Some(complaint) => Err(part_failure(complaint)),
        None => Ok(cell_images_of(events).ids),
    }
}

/// Gathers the picture ids that a cell-image list's events declare.
/// Malformed text is a `PARSE_ERROR`, whatever was gathered before it.
pub fn cell_images_from_events(events: &Vec<XmlEvent>) -> (parsed: Result<
    TextMap<String>,
    CommandError,
>)
    ensures
        match parsed {
            Ok(ids) => cell_images_result(events_model(events@)) == Ok::<
                Map<Seq<char>, Seq<char>>,
                ErrorModel,
            >(text_values(ids@)),
            Err(error) => cell_images_result(events_model(events@)) == Err::<
                Map<Seq<char>, Seq<char>>,
                ErrorModel,
            >(error@),
        },
{
    let ghost model = events_model(events@);
    let mut state = CellImagesState {
        ids: TextMap::new(),
        inside: false,
        name: None,
        embed: None,
        done: false,
        failure: None,
    };
    let mut i: usize = 0;
    proof {
        assert(model.take(0) == Seq::<EventModel>::empty());
        lemma_text_values_empty();
    }
    while i < events.len()
        invariant
            i <= events@.len(),
            model == events_model(events@),
            state@ == cell_images_of(model.take(i as int)),
        decreases events@.len() - i,
    {
        proof {
            assert(model.take(i + 1).drop_last() == model.take(i as int));
            assert(model.take(i + 1).last() == events@[i as int]@);
        }
        state.step(&events[i]);
        i += 1;
    }
    proof {
        assert(model.take(i as int) == model);
    }
    match state.failure {
        Some(complaint) => Err(part_error(complaint.as_str())),
        None => Ok(state.ids),
    }
}

/// What the text of a cell-image list comes to. Empty text lists nothing
/// and is never handed to the reader.
pub open spec fn cell_images_in(xml: Seq<char>) -> Result<Map<Seq<char>, Seq<char>>, ErrorModel> {
    if xml.len() == 0 {
        Ok(Map::empty())
    } else {
        cell_images_result(document_events(xml))
    }
}

/// Reads a cell-image list: from each picture id to its relationship id.
/// Empty text lists nothing; malformed text is a `PARSE_ERROR`.
pub fn parse_cell_images_xml(xml: &str) -> (parsed: Result<TextMap<String>, CommandError>)
    ensures
        xml@.len() > 0 ==> is_document(document_events(xml@)),
        match parsed {
            Ok(ids) => cell_images_in(xml@) == Ok::<Map<Seq<char>, Seq<char>>, ErrorModel>(
                text_values(ids@),
            ),
            Err(error) => cell_images_in(xml@) == Err::<Map<Seq<char>, Seq<char>>, ErrorModel>(
                error@,
            ),
        },
{
    if xml.is_empty() {
        let ids: TextMap<String> = TextMap::new();
        assert(text_values(ids@) =~= Map::empty());
        return Ok(ids);
    }
    let events = read_events(xml);
    cell_images_from_events(&events)
}

/// A picture anchored over the grid: the cell of its top-left corner and
/// the relationship that leads to its file.
#[derive(Debug, Clone)]
pub struct FloatingImageInfo {
    pub row: u32,
    pub col: u32,
    pub rid: String,
}

/// What a `FloatingImageInfo` says.
pub struct FloatingModel {
    pub row: u32,
    pub col: u32,
    pub rid: Seq<char>,
}

impl View for FloatingImageInfo {
    type V = FloatingModel;

    open spec fn view(&self) -> FloatingModel {
        FloatingModel { row: self.row, col: self.col, rid: self.rid@ }
    }
}

/// What a list of anchored pictures says.
pub open spec fn floating_model(images: Seq<FloatingImageInfo>) -> Seq<FloatingModel> {
    images.map_values(|f: FloatingImageInfo| f@)
}

/// What has been gathered from a drawing so far.
pub struct DrawingModel {
    /// From picture id to relationship id, for pictures that formulas show.
    pub ids: Map<Seq<char>, Seq<char>>,
    /// The anchored pictures, in the order their anchors close.
    pub floating: Seq<FloatingModel>,
    /// The picture name seen in the open anchor.
    pub name: Option<Seq<char>>,
    /// The relationship id seen in the open anchor.
    pub embed: Option<Seq<char>>,
    /// The row and column last read from a `from` corner.
    pub row: Option<u32>,
    pub col: Option<u32>,
    pub in_anchor: bool,
    pub in_from: bool,
    pub in_pic: bool,
    pub in_row: bool,
    pub in_col: bool,
    pub done: bool,
    /// The reader's complaint, if it gave up.
    pub failure: Option<Seq<char>>,
}

/// `name` is the tag of an anchor, of either kind.
pub open spec fn is_anchor(name: Seq<char>) -> bool {
    local_name(name) == "twoCellAnchor"@ || local_name(name) == "oneCellAnchor"@
}

/// The effect of an opening or self-closing tag on the gathering.
pub open spec fn drawing_open(state: DrawingModel, name: Seq<char>, attributes: Seq<
    crate::commands::excel::xml::AttributeModel,
>) -> DrawingModel {
    if is_anchor(name) {
        DrawingModel {
            in_anchor: true,
            name: None,
            embed: None,
            row: None,
            col: None,
            ..state
        }
    } else if local_name(name) == "from"@ {
        if state.in_anchor {
            DrawingModel { in_from: true, ..state }
        } else {
            state
        }
    } else if local_name(name) == "row"@ {
        if state.in_from {
            DrawingModel { in_row: true, ..state }
        } else {
            state
        }
    } else if local_name(name) == "col"@ {
        if state.in_from {
            DrawingModel { in_col: true, ..state }
        } else {
            state
        }
    } else if local_name(name) == "pic"@ {
        if state.in_anchor {
            DrawingModel { in_pic: true, ..state }
        } else {
            state
        }
    } else if local_name(name) == "cNvPr"@ {
        if state.in_pic {
            DrawingModel {
                name: updated(state.name, local_attribute_value(attributes, "name"@)),
                ..state
            }
        } else {
            state
        }
    } else if local_name(name) == "blip"@ {
        if state.in_pic {
            DrawingModel {
                embed: updated(state.embed, local_attribute_value(attributes, "embed"@)),
                ..state
            }
        } else {
            state
        }
    } else {
        state
    }
}

/// The effect of a closing tag on the gathering. An anchor's end records the
/// picture as anchored if its corner and relationship were seen, and as
/// shown by formulas if its name begins with `ID_` and its relationship was seen.
pub open spec fn drawing_close(state: DrawingModel, name: Seq<char>) -> DrawingModel {
    if is_anchor(name) {
        DrawingModel {
            floating: match (state.row, state.col, state.embed) {
                (Some(row), Some(col), Some(rid)) => state.floating.push(
                    FloatingModel { row, col, rid },
                ),
                _ => state.floating,
            },
            ids: match (state.name, state.embed) {
                (Some(id), Some(rid)) if begins_with(id, "ID_"@) => state.ids.insert(id, rid),
                _ => state.ids,
            },
            name: None,
            embed: None,
            in_anchor: false,
            ..state
        }
    } else if local_name(name) == "from"@ {
        DrawingModel { in_from: false, ..state }
    } else if local_name(name) == "row"@ {
        DrawingModel { in_row: false, ..state }
    } else if local_name(name) == "col"@ {
        DrawingModel { in_col: false, ..state }
    } else if local_name(name) == "pic"@ {
        DrawingModel { in_pic: false, ..state }
    } else {
        state
    }
}

/// One event's effect on the gathering. Text inside a corner's `row` or `col`
/// is read as an unsigned number; text whose escapes cannot be resolved
/// changes nothing.
pub open spec fn drawing_step(state: DrawingModel, event: EventModel) -> DrawingModel {
    if state.done {
        state
    } else {
        match event {
            EventModel::Start(e) | EventModel::Empty(e) => drawing_open(
                state,
                e.name,
                e.attributes,
            ),
            EventModel::Text(text) => {
                if state.in_row {
                    match text {
                        Some(t) => DrawingModel { row: u32_value(t), ..state },
                        None => state,
                    }
                } else if state.in_col {
                    match text {
                        Some(t) => DrawingModel { col: u32_value(t), ..state },
                        None => state,
                    }
                } else {
                    state
                }
            },
            EventModel::End(name) => drawing_close(state, name),
            EventModel::Eof => DrawingModel { done: true, ..state },
            EventModel::Failed(complaint) => DrawingModel {
                done: true,
                failure: Some(complaint),
                ..state
            },
            _ => state,
        }
    }
}

/// What a drawing says, event by event from nothing.
pub open spec fn drawing_of(events: Seq<EventModel>) -> DrawingModel
    decreases events.len(),
{
    if events.len() == 0 {
        DrawingModel {
            ids: Map::empty(),
            floating: Seq::empty(),
            name: None,
            embed: None,
            row: None,
            col: None,
            in_anchor: false,
            in_from: false,
            in_pic: false,
            in_row: false,
            in_col: false,
            done: false,
            failure: None,
        }
    } else {
        drawing_step(drawing_of(events.drop_last()), events.last())
    }
}

/// The gathering of a drawing, as it runs.
struct DrawingState {
    ids: TextMap<String>,
    floating: Vec<FloatingImageInfo>,
    name: Option<String>,
    embed: Option<String>,
    row: Option<u32>,
    col: Option<u32>,
    in_anchor: bool,
    in_from: bool,
    in_pic: bool,
    in_row: bool,
    in_col: bool,
    done: bool,
    failure: Option<String>,
}

impl View for DrawingState {
    type V = DrawingModel;

    closed spec fn view(&self) -> DrawingModel {
        DrawingModel {
            ids: text_values(self.ids@),
            floating: floating_model(self.floating@),
            name: text_of(self.name),
            embed: text_of(self.embed),
            row: self.row,
            col: self.col,
            in_anchor: self.in_anchor,
            in_from: self.in_from,
            in_pic: self.in_pic,
            in_row: self.in_row,
            in_col: self.in_col,
            done: self.done,
            failure: text_of(self.failure),
        }
    }
}

/// Whether `name` is the tag of an anchor.
fn names_anchor(name: &str) -> (yes: bool)
    ensures
        yes == is_anchor(name@),
{
    has_local_name(name, "twoCellAnchor") || has_local_name(name, "oneCellAnchor")
}

impl DrawingState {
    fn open(&mut self, element: &XmlElement)
        ensures
            final(self)@ == drawing_open(old(self)@, element@.name, element@.attributes),
    {
        let name = element.name.as_str();
        if names_anchor(name) {
            self.in_anchor = true;
            self.name = None;
            self.embed = None;
            self.row = None;
            self.col = None;
        } else if has_local_name(name, "from") {
            if self.in_anchor {
                self.in_from = true;
            }
        } else if has_local_name(name, "row") {
            if self.in_from {
                self.in_row = true;
            }
        } else if has_local_name(name, "col") {
            if self.in_from {
                self.in_col = true;
            }
        } else if has_local_name(name, "pic") {
            if self.in_anchor {
                self.in_pic = true;
            }
        } else if has_local_name(name, "cNvPr") {
            if self.in_pic {
                update_from(&mut self.name, element, "name");
            }
        } else if has_local_name(name, "blip") {
            if self.in_pic {
                update_from(&mut self.embed, element, "embed");
            }
        }
    }

    fn close(&mut self, name: &str)
        ensures
            final(self)@ == drawing_close(old(self)@, name@),
    {
        if names_anchor(name) {
            let id = self.name.take();
            let rid = self.embed.take();
            match (self.row, self.col, &rid) {
                (Some(row), Some(col), Some(rid)) => {
                    let image = FloatingImageInfo { row, col, rid: rid.clone() };
                    let ghost before = self.floating@;
                    self.floating.push(image);
                    assert(floating_model(self.floating@) == floating_model(before).push(image@));
                },
                _ => {},
            }
            match (id, rid) {
                (Some(id), Some(rid)) => {
                    if starts_with(id.as_str(), "ID_") {
                        proof {
                            lemma_text_values_insert(self.ids@, id@, rid);
                        }
                        self.ids.insert(id, rid);
                    }
                },
                _ => {},
            }
            self.in_anchor = false;
        } else if has_local_name(name, "from") {
            self.in_from = false;
        } else if has_local_name(name, "row") {
            self.in_row = false;
        } else if has_local_name(name, "col") {
            self.in_col = false;
        } else if has_local_name(name, "pic") {
            self.in_pic = false;
        }
    }

    fn step(&mut self, event: &XmlEvent)
        ensures
            final(self)@ == drawing_step(old(self)@, event@),
    {
        if self.done {
            return ;
        }
        match event {
            XmlEvent::Start(element) | XmlEvent::Empty(element) => {
                self.open(element);
            },
            XmlEvent::Text(text) => {
                if self.in_row {
                    match text {
                        Some(t) => {
                            self.row = parse_u32(t.as_str());
                        },
                        None => {},
                    }
                } else if self.in_col {
                    match text {
                        Some(t) => {
                            self.col = parse_u32(t.as_str());
                        },
                        None => {},
                    }
                }
            },
            XmlEvent::End(name) => {
                self.close(name.as_str());
            },
            XmlEvent::Eof => {
                self.done = true;
            },
            XmlEvent::Failed(complaint) => {
                self.done = true;
                self.failure = Some(complaint.clone());
            },
            _ => {},
        }
    }
}

/// What a drawing comes to: its picture ids for formulas and its anchored
/// pictures, or the error of the malformed text in it.
pub open spec fn drawing_result(events: Seq<EventModel>) -> Result<
    (Map<Seq<char>, Seq<char>>, Seq<FloatingModel>),
    ErrorModel,
> {
    match drawing_of(events).failure {
        Some(complaint) => Err(part_failure(complaint)),
        None => Ok((drawing_of(events).ids, drawing_of(events).floating)),
    }
}

/// Gathers what a drawing's events declare: the picture ids for formulas,
/// and the anchored pictures. Malformed text is a `PARSE_ERROR`, whatever
/// was gathered before it.
pub fn drawing_from_events(events: &Vec<XmlEvent>) -> (parsed: Result<
    (TextMap<String>, Vec<FloatingImageInfo>),
    CommandError,
>)
    ensures
        match parsed {
            Ok(found) => drawing_result(events_model(events@)) == Ok::<
                (Map<Seq<char>, Seq<char>>, Seq<FloatingModel>),
                ErrorModel,
            >((text_values(found.0@), floating_model(found.1@))),
            Err(error) => drawing_result(events_model(events@)) == Err::<
                (Map<Seq<char>, Seq<char>>, Seq<FloatingModel>),
                ErrorModel,
            >(error@),
        },
{
    let ghost model = events_model(events@);
    let mut state = DrawingState {
        ids: TextMap::new(),
        floating: Vec::new(),
        name: None,
        embed: None,
        row: None,
        col: None,
        in_anchor: false,
        in_from: false,
        in_pic: false,
        in_row: false,
        in_col: false,
        done: false,
        failure: None,
    };
    let mut i: usize = 0;
    proof {
        assert(model.take(0) == Seq::<EventModel>::empty());
        lemma_text_values_empty();
        assert(floating_model(state.floating@) == Seq::<FloatingModel>::empty());
    }
    while i < events.len()
        invariant
            i <= events@.len(),
            model == events_model(events@),
            state@ == drawing_of(model.take(i as int)),
        decreases events@.len() - i,
    {
        proof {
            assert(model.take(i + 1).drop_last() == model.take(i as int));
            assert(model.take(i + 1).last() == events@[i as int]@);
        }
        state.step(&events[i]);
        i += 1;
    }
    proof {
        assert(model.take(i as int) == model);
    }
    match state.failure {
        Some(complaint) => Err(part_error(complaint.as_str())),
        None => Ok((state.ids, state.floating)),
    }
}

/// What the text of a drawing comes to. Empty text draws nothing and is
/// never handed to the reader.
pub open spec fn drawing_in(xml: Seq<char>) -> Result<
    (Map<Seq<char>, Seq<char>>, Seq<FloatingModel>),
    ErrorModel,
> {
    if xml.len() == 0 {
        Ok((Map::empty(), Seq::empty()))
    } else {
        drawing_result(document_events(xml))
    }
}

/// Reads a drawing: the picture ids for formulas, and the anchored
/// pictures. Empty text draws nothing; malformed text is a `PARSE_ERROR`.
pub fn parse_drawing_xml(xml: &str) -> (parsed: Result<
    (TextMap<String>, Vec<FloatingImageInfo>),
    CommandError,
>)
    ensures
        xml@.len() > 0 ==> is_document(document_events(xml@)),
        match parsed {
            Ok(found) => drawing_in(xml@) == Ok::<
                (Map<Seq<char>, Seq<char>>, Seq<FloatingModel>),
                ErrorModel,
            >((text_values(found.0@), floating_model(found.1@))),
            Err(error) => drawing_in(xml@) == Err::<
                (Map<Seq<char>, Seq<char>>, Seq<FloatingModel>),
                ErrorModel,
            >(error@),
        },
{
    if xml.is_empty() {
        let ids: TextMap<String> = TextMap::new();
        let floating: Vec<FloatingImageInfo> = Vec::new();
        assert(text_values(ids@) =~= Map::empty());
        assert(floating_model(floating@) =~= Seq::empty());
        return Ok((ids, floating));
    }
    let events = read_events(xml);
    drawing_from_events(&events)
}

/// Before the event that closes it, a run of events leaves a cell-image
/// list open and without a failure.
proof fn lemma_cell_images_go_on(events: Seq<EventModel>)
    requires
        forall|i: int| 0 <= i < events.len() ==> !is_closing(#[trigger] events[i]),
    ensures
        !cell_images_of(events).done,
        cell_images_of(events).failure is None,
    decreases events.len(),
{
    if events.len() > 0 {
        lemma_cell_images_go_on(events.drop_last());
    }
}

/// A cell-image list fails exactly where its text is malformed: a run of
/// events that ends in the reader's complaint comes to the `PARSE_ERROR`
/// with that complaint, whatever was gathered before, and one that reaches
/// the end of the text comes to its picture ids.
pub proof fn lemma_cell_images_fail_with_the_text(events: Seq<EventModel>)
    requires
        is_document(events),
    ensures
        match complaint_of(events.last()) {
            Some(complaint) => cell_images_result(events) == Err::<
                Map<Seq<char>, Seq<char>>,
                ErrorModel,
            >(part_failure(complaint)),
            None => cell_images_result(events) is Ok,
        },
{
    lemma_cell_images_go_on(events.drop_last());
}

/// Before the event that closes it, a run of events leaves a drawing open
/// and without a failure.
proof fn lemma_drawing_goes_on(events: Seq<EventModel>)
    requires
        forall|i: int| 0 <= i < events.len() ==> !is_closing(#[trigger] events[i]),
    ensures
        !drawing_of(events).done,
        drawing_of(events).failure is None,
    decreases events.len(),
{
    if events.len() > 0 {
        lemma_drawing_goes_on(events.drop_last());
    }
}

/// A drawing fails exactly where its text is malformed: a run of events
/// that ends in the reader's complaint comes to the `PARSE_ERROR` with that
/// complaint, whatever was gathered before, and one that reaches the end of
/// the text comes to its pictures.
pub proof fn lemma_drawing_fails_with_the_text(events: Seq<EventModel>)
    requires
        is_document(events),
    ensures
        match complaint_of(events.last()) {
            Some(complaint) => drawing_result(events) == Err::<
                (Map<Seq<char>, Seq<char>>, Seq<FloatingModel>),
                ErrorModel,
            >(part_failure(complaint)),
            None => drawing_result(events) is Ok,
        },
{
    lemma_drawing_goes_on(events.drop_last());
}

} // verus!
