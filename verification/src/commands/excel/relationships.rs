//! Relationship parts: from a relationship id to the file it points at.

use crate::commands::error::{CommandError, ErrorModel};
use crate::commands::excel::xml::{
    complaint_of, document_events, events_model, find_local_attribute, has_local_name,
    is_closing, is_document, local_attribute_value, local_name, part_error, part_failure,
    read_events, EventModel, XmlElement, XmlEvent,
};
use crate::text::{after_last, after_last_of, text_of};
use crate::text_map::{lemma_text_values_empty, lemma_text_values_insert, text_values, TextMap};
use vstd::prelude::*;

verus! {

/// The last segment of a path: what follows its last `/`, or all of it.
pub open spec fn file_name(path: Seq<char>) -> Seq<char> {
    after_last(path, '/')
}

/// The last segment of `path`.
pub fn file_name_of(path: &str) -> (name: String)
    ensures
        name@ == file_name(path@),
{
    after_last_of(path, '/')
}

/// What has been gathered from a relationship part so far.
pub struct RelationshipsModel {
    /// From relationship id to file name.
    pub targets: Map<Seq<char>, Seq<char>>,
    /// The part has ended, or the reader gave up on it.
    pub done: bool,
    /// The reader's complaint, if it gave up.
    pub failure: Option<Seq<char>>,
}

/// One event's effect: a `Relationship` tag that has both an `Id` and a
/// `Target` maps the id to the target's file name; the end of the part
/// ends the gathering, and so does malformed text, which is kept as the
/// failure of the whole.
pub open spec fn relationships_step(state: RelationshipsModel, event: EventModel)
    -> RelationshipsModel {
    if state.done {
        state
    } else {
        match event {
            EventModel::Start(e) | EventModel::Empty(e) => {
                if local_name(e.name) == "Relationship"@ {
                    match (
                        local_attribute_value(e.attributes, "Id"@),
                        local_attribute_value(e.attributes, "Target"@),
                    ) {
                        (Some(id), Some(target)) => RelationshipsModel {
                            targets: state.targets.insert(id, file_name(target)),
                            ..state
                        },
                        _ => state,
                    }
                } else {
                    state
                }
            },
            EventModel::Eof => RelationshipsModel { done: true, ..state },
            EventModel::Failed(complaint) => RelationshipsModel {
                done: true,
                failure: Some(complaint),
                ..state
            },
            _ => state,
        }
    }
}

/// What a relationship part says, event by event from no relationship at all.
pub open spec fn relationships_of(events: Seq<EventModel>) -> RelationshipsModel
    decreases events.len(),
{
    if events.len() == 0 {
        RelationshipsModel { targets: Map::empty(), done: false, failure: None }
    } else {
        relationships_step(relationships_of(events.drop_last()), events.last())
    }
}

/// Records what a `Relationship` tag says.
fn note_relationship(targets: &mut TextMap<String>, element: &XmlElement)
    ensures
        text_values(final(targets)@) == (match (
            local_attribute_value(element@.attributes, "Id"@),
            local_attribute_value(element@.attributes, "Target"@),
        ) {
            (Some(id), Some(target)) => text_values(old(targets)@).insert(id, file_name(target)),
            _ => text_values(old(targets)@),
        }),
{
    let id = find_local_attribute(element, "Id");
    let target = find_local_attribute(element, "Target");
    match (id, target) {
        (Some(id), Some(target)) => {
            let name = file_name_of(target.as_str());
            proof {
                lemma_text_values_insert(targets@, id@, name);
            }
            targets.insert(id.clone(), name);
        },
        _ => {},
    }
}

/// What a relationship part comes to: its relationships, or the error of
/// the malformed text in it.
pub open spec fn relationships_result(events: Seq<EventModel>) -> Result<
    Map<Seq<char>, Seq<char>>,
    ErrorModel,
> {
    match relationships_of(events).failure {
        Some(complaint) => Err(part_failure(complaint)),
        None => Ok(relationships_of(events).targets),
    }
}

/// Gathers the relationships that a part's events declare. Malformed text
/// is a `PARSE_ERROR`, whatever was gathered before it.
pub fn relationships_from_events(events: &Vec<XmlEvent>) -> (parsed: Result<
    TextMap<String>,
    CommandError,
>)
    ensures
        match parsed {
            Ok(targets) => relationships_result(events_model(events@)) == Ok::<
                Map<Seq<char>, Seq<char>>,
                ErrorModel,
            >(text_values(targets@)),
            Err(error) => relationships_result(events_model(events@)) == Err::<
                Map<Seq<char>, Seq<char>>,
                ErrorModel,
            >(error@),
        },
{
    let ghost model = events_model(events@);
    let mut targets: TextMap<String> = TextMap::new();
    let mut done = false;
    let mut failure: Option<String> = None;
    let mut i: usize = 0;
    proof {
        assert(model.take(0) == Seq::<EventModel>::empty());
        lemma_text_values_empty();
    }
    while i < events.len()
        invariant
            i <= events@.len(),
            model == events_model(events@),
            relationships_of(model.take(i as int)) == (RelationshipsModel {
                targets: text_values(targets@),
                done,
                failure: text_of(failure),
            }),
        decreases events@.len() - i,
    {
        proof {
            assert(model.take(i + 1).drop_last() == model.take(i as int));
            assert(model.take(i + 1).last() == events@[i as int]@);
        }
        if !done {
            match &events[i] {
                XmlEvent::Start(element) | XmlEvent::Empty(element) => {
                    if has_local_name(element.name.as_str(), "Relationship") {
                        note_relationship(&mut targets, element);
                    }
                },
                XmlEvent::Eof => {
                    done = true;
                },
                XmlEvent::Failed(complaint) => {
                    done = true;
                    failure = Some(complaint.clone());
                },
                _ => {},
            }
        }
        i += 1;
    }
    proof {
        assert(model.take(i as int) == model);
    }
    match failure {
        Some(complaint) => Err(part_error(complaint.as_str())),
        None => Ok(targets),
    }
}

/// What the text of a relationship part comes to. Empty text declares
/// nothing and is never handed to the reader.
pub open spec fn relationships_in(xml: Seq<char>) -> Result<Map<Seq<char>, Seq<char>>, ErrorModel> {
    if xml.len() == 0 {
        Ok(Map::empty())
    } else {
        relationships_result(document_events(xml))
    }
}

/// Reads a relationship part: from each relationship id to the file name of
/// its target. Empty text has no relationships; malformed text is a
/// `PARSE_ERROR`.
pub fn parse_relationships(xml: &str) -> (parsed: Result<TextMap<String>, CommandError>)
    ensures
        xml@.len() > 0 ==> is_document(document_events(xml@)),
        match parsed {
            Ok(targets) => relationships_in(xml@) == Ok::<Map<Seq<char>, Seq<char>>, ErrorModel>(
                text_values(targets@),
            ),
            Err(error) => relationships_in(xml@) == Err::<Map<Seq<char>, Seq<char>>, ErrorModel>(
                error@,
            ),
        },
{
    if xml.is_empty() {
        let targets: TextMap<String> = TextMap::new();
        assert(text_values(targets@) =~= Map::empty());
        return Ok(targets);
    }
    let events = read_events(xml);
    relationships_from_events(&events)
}

/// Before the event that closes it, a run of events leaves the gathering
/// open and without a failure.
proof fn lemma_relationships_go_on(events: Seq<EventModel>)
    requires
        forall|i: int| 0 <= i < events.len() ==> !is_closing(#[trigger] events[i]),
    ensures
        !relationships_of(events).done,
        relationships_of(events).failure is None,
    decreases events.len(),
{
    if events.len() > 0 {
        lemma_relationships_go_on(events.drop_last());
    }
}

/// A relationship part fails exactly where its text is malformed: a run of
/// events that ends in the reader's complaint comes to the `PARSE_ERROR`
/// with that complaint, whatever was gathered before, and one that reaches
/// the end of the text comes to its relationships.
pub proof fn lemma_relationships_fail_with_the_text(events: Seq<EventModel>)
    requires
        is_document(events),
    ensures
        match complaint_of(events.last()) {
            Some(complaint) => relationships_result(events) == Err::<
                Map<Seq<char>, Seq<char>>,
                ErrorModel,
            >(part_failure(complaint)),
            None => relationships_result(events) is Ok,
        },
{
    lemma_relationships_go_on(events.drop_last());
}

} // verus!
