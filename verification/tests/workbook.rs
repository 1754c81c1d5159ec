use xlsx_import::dict::TextMap;
use xlsx_import::error::DecodeError;
use xlsx_import::workbook::{
    decode_relationships, decode_relationships_from, decode_workbook, decode_workbook_from,
    normalize_target, sheet_relationships_path,
};
use xlsx_import::xml::{read_events, EventReader};

fn relationships(xml: &str, lenient: bool) -> Result<Vec<(String, String)>, DecodeError> {
    decode_relationships(&read_events(xml.as_bytes()), lenient).map(|m| m.into_entries())
}

fn pair(a: &str, b: &str) -> (String, String) {
    (a.to_string(), b.to_string())
}

#[test]
fn relationships_map_identifiers_to_targets() {
    let xml = "<Relationships>\
               <Relationship Id=\"rId1\" Type=\"t\" Target=\"worksheets/sheet1.xml\"/>\
               <Relationship Id=\"rId2\" Type=\"t\" Target=\"a&amp;b\"/>\
               <Relationship Id=\"rId1\" Type=\"t\" Target=\"worksheets/sheet9.xml\"/>\
               </Relationships>";
    assert_eq!(
        relationships(xml, false),
        Ok(vec![pair("rId1", "worksheets/sheet9.xml"), pair("rId2", "a&b")])
    );
}

#[test]
fn relationships_of_a_sheet_need_identifier_and_target() {
    let xml = "<Relationships>\
               <Relationship Id=\"rId1\" Target=\"https://example.com/\"/>\
               <Relationship Id=\"rId2\"/>\
               <Relationship Target=\"x\"/>\
               </Relationships>";
    assert_eq!(relationships(xml, true), Ok(vec![pair("rId1", "https://example.com/")]));
    assert_eq!(
        relationships(xml, false),
        Ok(vec![pair("rId1", "https://example.com/"), pair("rId2", ""), pair("", "x")])
    );
}

#[test]
fn an_ill_formed_relationship_is_passed_over_only_for_a_sheet() {
    let xml = "<Relationships><Relationship Id=\"a\" Id=\"b\" Target=\"x\"/></Relationships>";
    assert_eq!(relationships(xml, true), Ok(vec![pair("a", "x")]));
    assert_eq!(relationships(xml, false), Err(DecodeError::MalformedXml));
}

#[test]
fn relationships_that_end_early_are_malformed() {
    assert_eq!(relationships("<Relationships>", true), Err(DecodeError::MalformedXml));
}

#[test]
fn targets_are_made_paths_of_parts() {
    assert_eq!(normalize_target("/xl/worksheets/sheet1.xml"), "xl/worksheets/sheet1.xml");
    assert_eq!(normalize_target("xl/worksheets/sheet1.xml"), "xl/worksheets/sheet1.xml");
    assert_eq!(normalize_target("worksheets/sheet1.xml"), "xl/worksheets/sheet1.xml");
    assert_eq!(normalize_target(""), "xl/");
    assert_eq!(normalize_target("/xl"), "xl//xl");
}

#[test]
fn the_relationships_of_a_sheet_lie_beside_it() {
    assert_eq!(
        sheet_relationships_path("xl/worksheets/sheet1.xml"),
        "xl/worksheets/_rels/sheet1.xml.rels"
    );
    assert_eq!(
        sheet_relationships_path("xl/worksheets/xl/worksheets/a.xml.xml"),
        "xl/worksheets/_rels/a.xml.rels"
    );
    assert_eq!(sheet_relationships_path("other/b.txt"), "xl/worksheets/_rels/other/b.txt.xml.rels");
}

#[test]
fn sheets_come_in_the_order_declared() {
    let mut rels = TextMap::new();
    rels.insert(String::from("rId1"), String::from("worksheets/sheet1.xml"));
    rels.insert(String::from("rId2"), String::from("/xl/worksheets/sheet2.xml"));
    let xml = "<workbook><sheets>\
               <sheet name=\"Second\" sheetId=\"2\" r:id=\"rId2\"/>\
               <sheet name=\"First &amp; last\" sheetId=\"1\" r:id=\"rId1\"/>\
               </sheets></workbook>";
    assert_eq!(
        decode_workbook(&read_events(xml.as_bytes()), &rels),
        Ok(vec![
            pair("Second", "xl/worksheets/sheet2.xml"),
            pair("First & last", "xl/worksheets/sheet1.xml")
        ])
    );
}

#[test]
fn a_sheet_without_relationship_is_unresolved() {
    let xml = "<workbook><sheets><sheet name=\"A\" r:id=\"rId7\"/></sheets></workbook>";
    assert_eq!(
        decode_workbook(&read_events(xml.as_bytes()), &TextMap::new()),
        Err(DecodeError::UnresolvedReference)
    );
}

#[test]
fn a_text_map_keeps_the_place_of_a_key() {
    let mut map = TextMap::new();
    assert!(!map.contains_key("a"));
    map.insert(String::from("a"), String::from("1"));
    map.insert(String::from("b"), String::from("2"));
    map.insert(String::from("a"), String::from("3"));
    assert_eq!(map.get("a"), Some(&String::from("3")));
    assert_eq!(map.get("b"), Some(&String::from("2")));
    assert_eq!(map.get("c"), None);
    assert!(map.contains_key("b"));
    assert_eq!(map.len(), 2);
    assert_eq!(map.entry(0), (&String::from("a"), &String::from("3")));
    assert_eq!(map.entry(1), (&String::from("b"), &String::from("2")));
    assert_eq!(map.into_entries(), vec![pair("a", "3"), pair("b", "2")]);
}

#[test]
fn readers_of_relationships_and_workbooks_decode_as_their_events_do() {
    let xml = b"<Relationships><Relationship Id=\"a\" Target=\"b\"/></Relationships>";
    let mut reader = EventReader::new(xml);
    let map = decode_relationships_from(&mut reader, true).unwrap();
    assert_eq!(map.get("a"), Some(&String::from("b")));
    assert_eq!(map.len(), 1);
    let book = b"<workbook><sheets><sheet name=\"S\" r:id=\"a\"/></sheets></workbook>";
    let mut reader = EventReader::new(book);
    assert_eq!(decode_workbook_from(&mut reader, &map), Ok(vec![pair("S", "xl/b")]));
    let mut reader = EventReader::new(b"<workbook>");
    assert_eq!(decode_workbook_from(&mut reader, &map), Err(DecodeError::MalformedXml));
    let mut reader = EventReader::new(b"");
    assert!(decode_relationships_from(&mut reader, false).is_err());
}

#[test]
fn every_key_of_a_text_map_occurs_once() {
    let mut map = TextMap::new();
    for (key, value) in [("k", "1"), ("l", "2"), ("k", "3"), ("", "4"), ("l", "5"), ("", "6")] {
        map.insert(String::from(key), String::from(value));
    }
    let entries = map.into_entries();
    assert_eq!(entries, vec![pair("k", "3"), pair("l", "5"), pair("", "6")]);
    for i in 0..entries.len() {
        for j in 0..i {
            assert_ne!(entries[i].0, entries[j].0);
        }
    }
}
