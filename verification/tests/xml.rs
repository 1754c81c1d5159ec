use xlsx_import::xml::{read_events, EventReader, XmlEvent};

fn start(event: &XmlEvent) -> (&str, Vec<(&str, Option<&str>)>, bool) {
    match event {
        XmlEvent::Start { name, attributes, well_formed } => (
            name.as_str(),
            attributes.iter().map(|a| (a.key.as_str(), a.value.as_deref())).collect(),
            *well_formed,
        ),
        _ => panic!("not a start tag"),
    }
}

fn end(event: &XmlEvent) -> &str {
    match event {
        XmlEvent::End { name } => name.as_str(),
        _ => panic!("not an end tag"),
    }
}

fn text(event: &XmlEvent) -> Option<&str> {
    match event {
        XmlEvent::Text { text } => text.as_deref(),
        _ => panic!("not text"),
    }
}

#[test]
fn events_come_in_document_order() {
    let events = read_events(b"<a x=\"1\" y='two'>hi<b/></a>");
    assert_eq!(events.len(), 6);
    assert_eq!(start(&events[0]), ("a", vec![("x", Some("1")), ("y", Some("two"))], true));
    assert_eq!(text(&events[1]), Some("hi"));
    assert_eq!(start(&events[2]), ("b", vec![], true));
    assert_eq!(end(&events[3]), "b");
    assert_eq!(end(&events[4]), "a");
    assert!(matches!(events[5], XmlEvent::Eof));
}

#[test]
fn character_references_are_resolved() {
    let events = read_events(b"<a t=\"x &amp; y\">&lt;1&#65;&gt;</a>");
    assert_eq!(start(&events[0]), ("a", vec![("t", Some("x & y"))], true));
    assert_eq!(text(&events[1]), Some("<1A>"));
}

#[test]
fn unresolved_references_leave_no_text() {
    let events = read_events(b"<a t=\"&nope;\">&nope;</a>");
    assert_eq!(start(&events[0]), ("a", vec![("t", None)], true));
    assert_eq!(text(&events[1]), None);
}

#[test]
fn text_is_not_trimmed() {
    let events = read_events(b"<a> x </a>");
    assert_eq!(text(&events[1]), Some(" x "));
}

#[test]
fn a_repeated_attribute_makes_the_tag_ill_formed() {
    let events = read_events(b"<a x=\"1\" x=\"2\" y=\"3\"/>");
    let (name, attributes, well_formed) = start(&events[0]);
    assert_eq!(name, "a");
    assert!(!well_formed);
    assert_eq!(attributes, vec![("x", Some("1")), ("y", Some("3"))]);
}

#[test]
fn comments_and_declarations_are_other_events() {
    let events = read_events(b"<?xml version=\"1.0\"?><!-- c --><a/>");
    assert!(matches!(events[0], XmlEvent::Other));
    assert!(matches!(events[1], XmlEvent::Other));
    assert_eq!(start(&events[2]).0, "a");
}

#[test]
fn an_empty_part_ends_at_once() {
    let events = read_events(b"");
    assert_eq!(events.len(), 1);
    assert!(matches!(events[0], XmlEvent::Eof));
}

#[test]
fn reading_stops_at_the_end_of_the_part() {
    let events = read_events(b"<a>");
    assert_eq!(events.len(), 2);
    assert!(matches!(events[1], XmlEvent::Eof));
}

#[test]
fn a_tokenizer_failure_ends_the_events() {
    let events = read_events(b"<a><!-oops></a>");
    assert_eq!(start(&events[0]).0, "a");
    assert!(matches!(events[events.len() - 1], XmlEvent::Failed));
    for event in &events[..events.len() - 1] {
        assert!(!matches!(event, XmlEvent::Failed | XmlEvent::Eof));
    }
}

#[test]
fn names_and_values_that_are_no_text_are_set_aside() {
    let events = read_events(b"<a\xff/><b k\xff=\"1\" v=\"\xff\"/>\xff");
    assert!(matches!(events[0], XmlEvent::Other));
    assert!(matches!(events[1], XmlEvent::Other));
    assert_eq!(start(&events[2]), ("b", vec![("v", None)], true));
    assert_eq!(end(&events[3]), "b");
    assert_eq!(text(&events[4]), None);
    assert!(matches!(events[5], XmlEvent::Eof));
}

#[test]
fn a_byte_order_mark_before_the_part_is_passed_over() {
    let events = read_events(b"\xef\xbb\xbf<a>x</a>");
    assert_eq!(start(&events[0]).0, "a");
    assert_eq!(text(&events[1]), Some("x"));
    assert_eq!(events.len(), 4);
}

#[test]
fn character_data_sections_are_other_events() {
    let events = read_events(b"<a><![CDATA[x]]></a>");
    assert!(matches!(events[1], XmlEvent::Other));
    assert_eq!(end(&events[2]), "a");
}

#[test]
fn a_reader_hands_out_the_events_one_at_a_time() {
    let data = b"<a><b>x</b></a>";
    let all = read_events(data);
    let mut reader = EventReader::new(data);
    for expected in &all {
        assert!(!reader.is_done());
        assert_eq!(&reader.next(), expected);
    }
    assert!(reader.is_done());
    assert!(matches!(reader.next(), XmlEvent::Eof));
    assert!(reader.is_done());
}
