use liao_tools::commands::excel::xml::{
    find_attribute, find_local_attribute, has_local_name, local_name_of, read_events, XmlEvent,
};

fn kinds(events: &[XmlEvent]) -> Vec<String> {
    events
        .iter()
        .map(|event| match event {
            XmlEvent::Start(e) => format!("start {}", e.name),
            XmlEvent::Empty(e) => format!("empty {}", e.name),
            XmlEvent::End(name) => format!("end {}", name),
            XmlEvent::Text(Some(text)) => format!("text {}", text),
            XmlEvent::Text(None) => "text ?".to_string(),
            XmlEvent::Eof => "eof".to_string(),
            XmlEvent::Failed(_) => "failed".to_string(),
            XmlEvent::Other => "other".to_string(),
        })
        .collect()
}

#[test]
fn events_come_in_document_order_and_end_with_eof() {
    let events = read_events("<?xml version=\"1.0\"?>\n<a>\n  <b x=\"1\"/>\n  <c> hi &amp; bye </c>\n</a>\n");
    assert_eq!(
        kinds(&events),
        vec!["other", "start a", "empty b", "start c", "text hi & bye", "end c", "end a", "eof"]
    );
}

#[test]
fn empty_text_gives_a_single_eof() {
    assert_eq!(kinds(&read_events("")), vec!["eof"]);
    assert_eq!(kinds(&read_events("  \n ")), vec!["eof"]);
}

#[test]
fn reading_stops_at_the_first_failure() {
    let events = read_events("<a><b></a><c/>");
    assert_eq!(kinds(&events), vec!["start a", "start b", "failed"]);
    match events.last() {
        Some(XmlEvent::Failed(message)) => assert!(!message.is_empty()),
        other => panic!("expected a failure, got {:?}", other),
    }
}

#[test]
fn attributes_keep_their_order_and_raw_values() {
    let events = read_events("<r:node a=\"1\" r:b='two' c=\"x &lt; y\"/>");
    match &events[0] {
        XmlEvent::Empty(element) => {
            assert_eq!(element.name, "r:node");
            let pairs: Vec<(&str, &str)> = element
                .attributes
                .iter()
                .map(|a| (a.key.as_str(), a.value.as_str()))
                .collect();
            assert_eq!(pairs, vec![("a", "1"), ("r:b", "two"), ("c", "x &lt; y")]);
            assert_eq!(find_attribute(element, "a").map(|s| s.as_str()), Some("1"));
            assert_eq!(find_attribute(element, "b"), None);
            assert_eq!(find_attribute(element, "r:b").map(|s| s.as_str()), Some("two"));
            assert_eq!(find_local_attribute(element, "b").map(|s| s.as_str()), Some("two"));
            assert_eq!(find_local_attribute(element, "missing"), None);
        }
        other => panic!("expected an empty tag, got {:?}", other),
    }
}

#[test]
fn malformed_and_repeated_attributes_are_dropped() {
    let events = read_events("<n a=\"1\" a=\"2\" b=3 c=\"4\"/>");
    match &events[0] {
        XmlEvent::Empty(element) => {
            assert_eq!(find_attribute(element, "a").map(|s| s.as_str()), Some("1"));
            assert_eq!(find_attribute(element, "c").map(|s| s.as_str()), Some("4"));
            assert_eq!(find_attribute(element, "b"), None);
        }
        other => panic!("expected an empty tag, got {:?}", other),
    }
}

#[test]
fn text_with_a_broken_escape_has_no_value() {
    let events = read_events("<a>x &nosuch; y</a>");
    assert_eq!(kinds(&events), vec!["start a", "text ?", "end a", "eof"]);
}

#[test]
fn local_names_drop_the_prefix() {
    assert_eq!(local_name_of("xdr:pic"), "pic");
    assert_eq!(local_name_of("pic"), "pic");
    assert_eq!(local_name_of("a:b:c"), "b:c");
    assert_eq!(local_name_of(":x"), "x");
    assert_eq!(local_name_of("x:"), "");
    assert_eq!(local_name_of(""), "");
    assert!(has_local_name("r:embed", "embed"));
    assert!(!has_local_name("r:embed", "r:embed"));
}
