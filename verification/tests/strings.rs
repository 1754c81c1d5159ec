use xlsx_import::error::DecodeError;
use xlsx_import::shared_strings::{decode_shared_strings, decode_shared_strings_from};
use xlsx_import::xml::{read_events, EventReader};

fn decode(xml: &str) -> Result<Vec<String>, DecodeError> {
    decode_shared_strings(&read_events(xml.as_bytes()))
}

#[test]
fn entries_come_in_document_order() {
    assert_eq!(
        decode("<sst><si><t>Hello</t></si><si><t/></si><si><t>a &amp; b</t></si></sst>"),
        Ok(vec![String::from("Hello"), String::new(), String::from("a & b")])
    );
}

#[test]
fn text_runs_of_an_entry_are_put_together() {
    assert_eq!(
        decode("<sst><si><r><rPr><b/></rPr><t>Hel</t></r><r><t xml:space=\"preserve\">lo </t></r><r><t>World</t></r></si></sst>"),
        Ok(vec![String::from("Hello World")])
    );
}

#[test]
fn phonetic_guides_are_left_out() {
    assert_eq!(
        decode("<sst><si><t>\u{6f22}\u{5b57}</t><rPh sb=\"0\" eb=\"2\"><t>\u{30ab}\u{30f3}\u{30b8}</t></rPh><phoneticPr fontId=\"1\"/></si><si><t>next</t></si></sst>"),
        Ok(vec![String::from("\u{6f22}\u{5b57}"), String::from("next")])
    );
}

#[test]
fn text_outside_text_runs_is_left_out() {
    assert_eq!(
        decode("<sst>\n  <si>\n    <t>x</t>\n  </si>\n</sst>"),
        Ok(vec![String::from("x")])
    );
}

#[test]
fn shared_strings_that_end_early_are_malformed() {
    assert_eq!(decode("<sst><si><t>x</t></si>"), Err(DecodeError::MalformedXml));
}

#[test]
fn text_that_cannot_be_resolved_is_malformed() {
    assert_eq!(decode("<sst><si><t>&nope;</t></si></sst>"), Err(DecodeError::MalformedXml));
}

#[test]
fn a_reader_decodes_as_its_events_do() {
    let xml = b"<sst><si><t>a</t></si><si><r><t>b</t></r><r><t>c</t></r></si></sst><junk";
    let mut reader = EventReader::new(xml);
    assert_eq!(
        decode_shared_strings_from(&mut reader),
        decode_shared_strings(&read_events(xml))
    );
    let mut reader = EventReader::new(b"<sst><si>");
    assert_eq!(decode_shared_strings_from(&mut reader), Err(DecodeError::MalformedXml));
}
