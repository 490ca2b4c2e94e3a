//! The events of an XML part, as plain values.
//!
//! `quick_xml` cuts the text into events; everything the parsers of this
//! crate decide is decided on the plain copies defined here.

use crate::commands::error::{CommandError, ErrorModel};
use crate::text::{chars_of, str_eq, string_of, string_of_range};
use quick_xml::Reader;
use quick_xml::events::Event;
use quick_xml::events::attributes::Attributes;
use vstd::prelude::*;
use vstd::utf8::{decode_utf8, valid_utf8};

verus! {

/// `quick_xml`'s pull reader; only its pending events are spoken of.
#[verifier::external_type_specification]
#[verifier::external_body]
#[verifier::reject_recursive_types(R)]
pub struct ExReader<R>(Reader<R>);

/// One attribute as it stands in a tag: key and value, undecoded.
#[derive(Debug, Clone)]
pub struct RawAttribute {
    pub key: Vec<u8>,
    pub value: Vec<u8>,
}

/// One event as the reader hands it out, undecoded but for text.
#[derive(Debug, Clone)]
pub enum RawEvent {
    /// An opening tag: its name, and everything between `<` and `>`.
    Start { name: Vec<u8>, content: Vec<u8> },
    /// A self-closing tag: its name, and everything between `<` and `/>`.
    Empty { name: Vec<u8>, content: Vec<u8> },
    /// A closing tag.
    End { name: Vec<u8> },
    /// Character data with its escapes resolved, or nothing where they cannot be.
    Text { text: Option<String> },
    /// The end of the text.
    Eof,
    /// The reader's complaint about malformed text.
    Failed { message: String },
    /// A comment, declaration, instruction, CDATA section or doctype.
    Other,
}

impl RawEvent {
    /// After this event the reader yields nothing more.
    pub open spec fn is_last(self) -> bool {
        self is Eof || self is Failed
    }
}

/// The events that a trimming reader yields for the text `xml`, up to and
/// including the first `Eof` or `Failed`.
pub uninterp spec fn xml_events(xml: Seq<char>) -> Seq<RawEvent>;

/// The events that `reader` has yet to yield, up to and including the first
/// `Eof` or `Failed`.
pub uninterp spec fn pending_events(reader: Reader<&[u8]>) -> Seq<RawEvent>;

/// The attributes that `quick_xml` finds in a tag, in order: `content` is
/// what stands between the tag's brackets, and its first `name_len` bytes are
/// the name. A malformed or repeated attribute shows as `None`.
pub uninterp spec fn tag_attributes(content: Seq<u8>, name_len: int) -> Seq<Option<RawAttribute>>;

/// The text that `bytes` decode to, with U+FFFD in place of what is not UTF-8.
pub uninterp spec fn lossy_text(bytes: Seq<u8>) -> Seq<char>;

/// What holds of every run of events: it ends with its only `Eof` or
/// `Failed`, and a tag's name is no longer than the tag.
pub open spec fn is_event_stream(events: Seq<RawEvent>) -> bool {
    &&& events.len() > 0
    &&& events.last().is_last()
    &&& forall|i: int| 0 <= i < events.len() - 1 ==> !(#[trigger] events[i]).is_last()
    &&& forall|i: int|
        0 <= i < events.len() ==> match #[trigger] events[i] {
            RawEvent::Start { name, content } => name@.len() <= content@.len(),
            RawEvent::Empty { name, content } => name@.len() <= content@.len(),
            _ => true,
        }
}

/// Calls `Reader::from_str` and `Reader::trim_text(true)`: a reader at the
/// start of `xml` that drops the white space around character data. Its
/// pending events are those of `xml`; the run ends because the reader moves
/// to its exit state on `Eof` and on any error.
#[verifier::external_body]
fn open_reader<'a>(xml: &'a str) -> (reader: Reader<&'a [u8]>)
    ensures
        pending_events(reader) == xml_events(xml@),
        is_event_stream(pending_events(reader)),
{
    let mut reader = Reader::from_str(xml);
    reader.trim_text(true);
    reader
}

/// Calls `Reader::read_event` and copies the event out: names through
/// `name()`, a tag's content through its `Deref`, text through `unescape()`,
/// an error through its `Display`. The reader moves on by one event.
#[verifier::external_body]
fn next_event(reader: &mut Reader<&[u8]>) -> (event: RawEvent)
    requires
        pending_events(*old(reader)).len() > 0,
    ensures
        event == pending_events(*old(reader)).first(),
        pending_events(*final(reader)) == pending_events(*old(reader)).drop_first(),
{
    match reader.read_event() {
        Ok(Event::Start(e)) => RawEvent::Start { name: e.name().as_ref().to_vec(), content: e.to_vec() },
        Ok(Event::Empty(e)) => RawEvent::Empty { name: e.name().as_ref().to_vec(), content: e.to_vec() },
        Ok(Event::End(e)) => RawEvent::End { name: e.name().as_ref().to_vec() },
        Ok(Event::Text(e)) => RawEvent::Text { text: e.unescape().ok().map(|t| t.into_owned()) },
        Ok(Event::Eof) => RawEvent::Eof,
        Ok(_) => RawEvent::Other,
        Err(e) => RawEvent::Failed { message: e.to_string() },
    }
}

/// Runs `quick_xml`'s attribute iterator over a tag, from the end of its
/// name on, and copies each item out: `Attributes::new` on the tag's text,
/// which is how `BytesStart::attributes` reads a tag. A well-formed
/// attribute comes as its key and its value as they stand in the text, any
/// other as `None`.
#[verifier::external_body]
fn read_attributes(content: &[u8], name_len: usize) -> (attributes: Vec<Option<RawAttribute>>)
    requires
        name_len <= content@.len(),
    ensures
        attributes@ == tag_attributes(content@, name_len as int),
{
    Attributes::new(&String::from_utf8_lossy(content), name_len)
        .map(|a| a.ok().map(|a| RawAttribute { key: a.key.as_ref().to_vec(), value: a.value.into_owned() }))
        .collect()
}

/// Calls `String::from_utf8_lossy`: the decoded text, which for valid UTF-8
/// is the text that the bytes encode.
#[verifier::external_body]
pub(crate) fn utf8_lossy(bytes: &[u8]) -> (text: String)
    ensures
        text@ == lossy_text(bytes@),
        valid_utf8(bytes@) ==> text@ == decode_utf8(bytes@),
{
    String::from_utf8_lossy(bytes).into_owned()
}

/// An attribute of a tag, decoded.
#[derive(Debug, Clone)]
pub struct XmlAttribute {
    pub key: String,
    pub value: String,
}

/// A tag: its name and its well-formed attributes in order, decoded.
#[derive(Debug, Clone)]
pub struct XmlElement {
    pub name: String,
    pub attributes: Vec<XmlAttribute>,
}

/// One event of an XML part, decoded.
#[derive(Debug, Clone)]
pub enum XmlEvent {
    Start(XmlElement),
    Empty(XmlElement),
    End(String),
    Text(Option<String>),
    Eof,
    Failed(String),
    Other,
}

/// What an `XmlAttribute` says.
pub struct AttributeModel {
    pub key: Seq<char>,
    pub value: Seq<char>,
}

/// What an `XmlElement` says.
pub struct ElementModel {
    pub name: Seq<char>,
    pub attributes: Seq<AttributeModel>,
}

/// What an `XmlEvent` says.
pub enum EventModel {
    Start(ElementModel),
    Empty(ElementModel),
    End(Seq<char>),
    Text(Option<Seq<char>>),
    Eof,
    Failed(Seq<char>),
    Other,
}

impl View for XmlAttribute {
    type V = AttributeModel;

    open spec fn view(&self) -> AttributeModel {
        AttributeModel { key: self.key@, value: self.value@ }
    }
}

impl View for XmlElement {
    type V = ElementModel;

    open spec fn view(&self) -> ElementModel {
        ElementModel {
            name: self.name@,
            attributes: self.attributes@.map_values(|a: XmlAttribute| a@),
        }
    }
}

impl View for XmlEvent {
    type V = EventModel;

    open spec fn view(&self) -> EventModel {
        match self {
            XmlEvent::Start(e) => EventModel::Start(e@),
            XmlEvent::Empty(e) => EventModel::Empty(e@),
            XmlEvent::End(name) => EventModel::End(name@),
            XmlEvent::Text(Some(text)) => EventModel::Text(Some(text@)),
            XmlEvent::Text(None) => EventModel::Text(None),
            XmlEvent::Eof => EventModel::Eof,
            XmlEvent::Failed(message) => EventModel::Failed(message@),
            XmlEvent::Other => EventModel::Other,
        }
    }
}

/// The first index at which `c` stands in `s`, or the length of `s`.
pub open spec fn position_of(s: Seq<char>, c: char) -> int
    decreases s.len(),
{
    if s.len() == 0 {
        0
    } else if s[0] == c {
        0
    } else {
        1 + position_of(s.skip(1), c)
    }
}

/// A qualified name without its prefix: what follows the first colon, or
/// the whole name where it has none.
pub open spec fn local_name(name: Seq<char>) -> Seq<char> {
    if position_of(name, ':') < name.len() {
        name.skip(position_of(name, ':') + 1)
    } else {
        name
    }
}

/// The value of the last attribute whose key is `key`.
pub open spec fn attribute_value(attributes: Seq<AttributeModel>, key: Seq<char>) -> Option<
    Seq<char>,
>
    decreases attributes.len(),
{
    if attributes.len() == 0 {
        None
    } else if attributes.last().key == key {
        Some(attributes.last().value)
    } else {
        attribute_value(attributes.drop_last(), key)
    }
}

/// The value of the last attribute whose key, without its prefix, is `key`.
pub open spec fn local_attribute_value(attributes: Seq<AttributeModel>, key: Seq<char>) -> Option<
    Seq<char>,
>
    decreases attributes.len(),
{
    if attributes.len() == 0 {
        None
    } else if local_name(attributes.last().key) == key {
        Some(attributes.last().value)
    } else {
        local_attribute_value(attributes.drop_last(), key)
    }
}

/// Where `c` first stands is where nothing before it is `c`.
pub proof fn lemma_position_of(s: Seq<char>, c: char, at: int)
    requires
        0 <= at <= s.len(),
        forall|k: int| 0 <= k < at ==> s[k] != c,
        at < s.len() ==> s[at] == c,
    ensures
        position_of(s, c) == at,
    decreases s.len(),
{
    if s.len() > 0 && at > 0 {
        assert(s[0] != c);
        let rest = s.skip(1);
        assert forall|k: int| 0 <= k < at - 1 implies rest[k] != c by {
            assert(rest[k] == s[k + 1]);
        }
        lemma_position_of(rest, c, at - 1);
    }
}

/// The name without its prefix.
pub fn local_name_of(name: &str) -> (local: String)
    ensures
        local@ == local_name(name@),
{
    let chars = chars_of(name);
    let mut at: usize = 0;
    while at < chars.len() && chars[at] != ':'
        invariant
            at <= chars@.len(),
            forall|k: int| 0 <= k < at ==> chars@[k] != ':',
        decreases chars@.len() - at,
    {
        at += 1;
    }
    proof {
        lemma_position_of(chars@, ':', at as int);
    }
    if at < chars.len() {
        let local = string_of_range(&chars, at + 1, chars.len());
        assert(chars@.subrange(at + 1, chars@.len() as int) == chars@.skip(at + 1));
        local
    } else {
        string_of(&chars)
    }
}

/// Whether `name`, without its prefix, is `local`.
pub fn has_local_name(name: &str, local: &str) -> (same: bool)
    ensures
        same == (local_name(name@) == local@),
{
    let own = local_name_of(name);
    str_eq(own.as_str(), local)
}

/// The value of the last attribute of `element` whose key is `key`.
pub fn find_attribute<'a>(element: &'a XmlElement, key: &str) -> (value: Option<&'a String>)
    ensures
        match value {
            Some(v) => attribute_value(element@.attributes, key@) == Some(v@),
            None => attribute_value(element@.attributes, key@) is None,
        },
{
    let ghost model = element@.attributes;
    let mut found: Option<usize> = None;
    let mut i: usize = 0;
    assert(model.take(0) == Seq::<AttributeModel>::empty());
    while i < element.attributes.len()
        invariant
            i <= element.attributes@.len(),
            model == element@.attributes,
            model.len() == element.attributes@.len(),
            match found {
                Some(at) => at < i && attribute_value(model.take(i as int), key@) == Some(
                    element.attributes@[at as int].value@,
                ),
                None => attribute_value(model.take(i as int), key@) is None,
            },
        decreases element.attributes@.len() - i,
    {
        proof {
            assert(model.take(i + 1).drop_last() == model.take(i as int));
            assert(model.take(i + 1).last() == element.attributes@[i as int]@);
        }
        if str_eq(element.attributes[i].key.as_str(), key) {
            found = Some(i);
        }
        i += 1;
    }
    proof {
        assert(model.take(i as int) == model);
    }
    match found {
        Some(at) => Some(&element.attributes[at].value),
        None => None,
    }
}

/// The value of the last attribute of `element` whose key, without its
/// prefix, is `key`.
pub fn find_local_attribute<'a>(element: &'a XmlElement, key: &str) -> (value: Option<
    &'a String,
>)
    ensures
        match value {
            Some(v) => local_attribute_value(element@.attributes, key@) == Some(v@),
            None => local_attribute_value(element@.attributes, key@) is None,
        },
{
    let ghost model = element@.attributes;
    let mut found: Option<usize> = None;
    let mut i: usize = 0;
    assert(model.take(0) == Seq::<AttributeModel>::empty());
    while i < element.attributes.len()
        invariant
            i <= element.attributes@.len(),
            model == element@.attributes,
            model.len() == element.attributes@.len(),
            match found {
                Some(at) => at < i && local_attribute_value(model.take(i as int), key@) == Some(
                    element.attributes@[at as int].value@,
                ),
                None => local_attribute_value(model.take(i as int), key@) is None,
            },
        decreases element.attributes@.len() - i,
    {
        proof {
            assert(model.take(i + 1).drop_last() == model.take(i as int));
            assert(model.take(i + 1).last() == element.attributes@[i as int]@);
        }
        if has_local_name(element.attributes[i].key.as_str(), key) {
            found = Some(i);
        }
        i += 1;
    }
    proof {
        assert(model.take(i as int) == model);
    }
    match found {
        Some(at) => Some(&element.attributes[at].value),
        None => None,
    }
}

/// What a vector of events says.
pub open spec fn events_model(events: Seq<XmlEvent>) -> Seq<EventModel> {
    events.map_values(|e: XmlEvent| e@)
}

/// The well-formed attributes among `raw`, decoded, in order.
pub open spec fn decoded_attributes(raw: Seq<Option<RawAttribute>>) -> Seq<AttributeModel>
    decreases raw.len(),
{
    if raw.len() == 0 {
        Seq::empty()
    } else {
        match raw.last() {
            Some(a) => decoded_attributes(raw.drop_last()).push(
                AttributeModel { key: lossy_text(a.key@), value: lossy_text(a.value@) },
            ),
            None => decoded_attributes(raw.drop_last()),
        }
    }
}

/// The tag with the given undecoded name and content, decoded.
pub open spec fn decoded_element(name: Seq<u8>, content: Seq<u8>) -> ElementModel {
    ElementModel {
        name: lossy_text(name),
        attributes: decoded_attributes(tag_attributes(content, name.len() as int)),
    }
}

/// The event `raw`, decoded.
pub open spec fn decoded_event(raw: RawEvent) -> EventModel {
    match raw {
        RawEvent::Start { name, content } => EventModel::Start(decoded_element(name@, content@)),
        RawEvent::Empty { name, content } => EventModel::Empty(decoded_element(name@, content@)),
        RawEvent::End { name } => EventModel::End(lossy_text(name@)),
        RawEvent::Text { text: Some(text) } => EventModel::Text(Some(text@)),
        RawEvent::Text { text: None } => EventModel::Text(None),
        RawEvent::Eof => EventModel::Eof,
        RawEvent::Failed { message } => EventModel::Failed(message@),
        RawEvent::Other => EventModel::Other,
    }
}

/// The events of the XML text `xml`, decoded, up to and including the first
/// `Eof` or `Failed`.
pub open spec fn document_events(xml: Seq<char>) -> Seq<EventModel> {
    xml_events(xml).map_values(|raw: RawEvent| decoded_event(raw))
}

/// Whether `event` ends a run of events: the end of the text, or the
/// reader's giving up on it.
pub open spec fn is_closing(event: EventModel) -> bool {
    event is Eof || event is Failed
}

/// The reader's complaint, where `event` is its giving up.
pub open spec fn complaint_of(event: EventModel) -> Option<Seq<char>> {
    match event {
        EventModel::Failed(complaint) => Some(complaint),
        _ => None,
    }
}

/// What holds of every decoded run of events: it is not empty, and it ends
/// with its only `Eof` or `Failed`.
pub open spec fn is_document(events: Seq<EventModel>) -> bool {
    &&& events.len() > 0
    &&& is_closing(events.last())
    &&& forall|i: int| 0 <= i < events.len() - 1 ==> !is_closing(#[trigger] events[i])
}

/// Decodes a tag.
fn decode_element(name: &Vec<u8>, content: &Vec<u8>) -> (element: XmlElement)
    requires
        name@.len() <= content@.len(),
    ensures
        element@ == decoded_element(name@, content@),
{
    let raw = read_attributes(content.as_slice(), name.len());
    let mut attributes: Vec<XmlAttribute> = Vec::new();
    let mut i: usize = 0;
    assert(raw@.take(0) == Seq::<Option<RawAttribute>>::empty());
    while i < raw.len()
        invariant
            i <= raw@.len(),
            attributes@.map_values(|a: XmlAttribute| a@) == decoded_attributes(raw@.take(i as int)),
        decreases raw@.len() - i,
    {
        proof {
            assert(raw@.take(i + 1).drop_last() == raw@.take(i as int));
            assert(raw@.take(i + 1).last() == raw@[i as int]);
        }
        let ghost before = attributes@;
        match &raw[i] {
            Some(a) => {
                let attribute = XmlAttribute {
                    key: utf8_lossy(a.key.as_slice()),
                    value: utf8_lossy(a.value.as_slice()),
                };
                attributes.push(attribute);
                assert(attributes@.map_values(|a: XmlAttribute| a@) == before.map_values(
                    |a: XmlAttribute| a@,
                ).push(attribute@));
            },
            None => {},
        }
        i += 1;
    }
    proof {
        assert(raw@.take(i as int) == raw@);
    }
    XmlElement { name: utf8_lossy(name.as_slice()), attributes }
}

/// Decodes an event.
fn decode_event(raw: &RawEvent) -> (event: XmlEvent)
    requires
        match *raw {
            RawEvent::Start { name, content } => name@.len() <= content@.len(),
            RawEvent::Empty { name, content } => name@.len() <= content@.len(),
            _ => true,
        },
    ensures
        event@ == decoded_event(*raw),
{
    match raw {
        RawEvent::Start { name, content } => XmlEvent::Start(decode_element(name, content)),
        RawEvent::Empty { name, content } => XmlEvent::Empty(decode_element(name, content)),
        RawEvent::End { name } => XmlEvent::End(utf8_lossy(name.as_slice())),
        RawEvent::Text { text: Some(text) } => XmlEvent::Text(Some(text.clone())),
        RawEvent::Text { text: None } => XmlEvent::Text(None),
        RawEvent::Eof => XmlEvent::Eof,
        RawEvent::Failed { message } => XmlEvent::Failed(message.clone()),
        RawEvent::Other => XmlEvent::Other,
    }
}

/// The error that malformed XML in an optional part gives: a `PARSE_ERROR`
/// that carries the reader's complaint.
pub open spec fn part_failure(complaint: Seq<char>) -> ErrorModel {
    ErrorModel { message: "XML 解析错误: "@ + complaint, code: "PARSE_ERROR"@ }
}

/// The error that malformed XML in an optional part gives.
pub fn part_error(complaint: &str) -> (error: CommandError)
    ensures
        error@ == part_failure(complaint@),
{
    CommandError::with_reason("XML 解析错误: ", complaint, "PARSE_ERROR")
}

/// Reads the XML text `xml` into its events, up to and including the first
/// `Eof` or `Failed`.
pub fn read_events(xml: &str) -> (events: Vec<XmlEvent>)
    ensures
        events_model(events@) == document_events(xml@),
        is_document(document_events(xml@)),
{
    let mut reader = open_reader(xml);
    let ghost all = xml_events(xml@);
    let mut events: Vec<XmlEvent> = Vec::new();
    let mut done = false;
    assert(all.skip(0) == all);
    while !done
        invariant
            is_event_stream(all),
            events@.len() <= all.len(),
            pending_events(reader) == all.skip(events@.len() as int),
            events_model(events@) == all.take(events@.len() as int).map_values(
                |raw: RawEvent| decoded_event(raw),
            ),
            done <==> events@.len() == all.len(),
        decreases all.len() - events@.len(),
    {
        let ghost n = events@.len() as int;
        let ghost before = events@;
        let raw = next_event(&mut reader);
        assert(raw == all[n]);
        assert(all.skip(n).drop_first() == all.skip(n + 1));
        let event = decode_event(&raw);
        done = match raw {
            RawEvent::Eof => true,
            RawEvent::Failed { .. } => true,
            _ => false,
        };
        events.push(event);
        proof {
            assert(events_model(events@) == events_model(before).push(event@));
            assert(all.take(n + 1).map_values(|raw: RawEvent| decoded_event(raw)) == all.take(
                n,
            ).map_values(|raw: RawEvent| decoded_event(raw)).push(decoded_event(all[n])));
        }
    }
    proof {
        assert(all.take(all.len() as int) == all);
        assert forall|i: int| 0 <= i < all.len() implies is_closing(
            #[trigger] document_events(xml@)[i],
        ) == all[i].is_last() by {
            assert(document_events(xml@)[i] == decoded_event(all[i]));
        }
    }
    events
}

} // verus!
