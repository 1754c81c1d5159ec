use std::io::{Cursor, Write};
use xlsx_import::error::{DecodeError, XlsxError};
use xlsx_import::sheet::{Cell, CellCoords, MergedCell};
use xlsx_import::xlsx::XLSX;
use zip::write::{FileOptions, ZipWriter};

fn archive(parts: &[(&str, &str)]) -> Vec<u8> {
    let mut writer = ZipWriter::new(Cursor::new(Vec::new()));
    for (path, content) in parts {
        writer.start_file(*path, FileOptions::default()).unwrap();
        writer.write_all(content.as_bytes()).unwrap();
    }
    writer.finish().unwrap().into_inner()
}

const RELS: &str = "<?xml version=\"1.0\" encoding=\"UTF-8\"?>\
    <Relationships xmlns=\"http://schemas.openxmlformats.org/package/2006/relationships\">\
    <Relationship Id=\"rId1\" Type=\"sheet\" Target=\"worksheets/sheet1.xml\"/>\
    <Relationship Id=\"rId2\" Type=\"sheet\" Target=\"/xl/worksheets/sheet2.xml\"/>\
    </Relationships>";

const BOOK: &str = "<?xml version=\"1.0\" encoding=\"UTF-8\"?>\
    <workbook><sheets>\
    <sheet name=\"Data\" sheetId=\"1\" r:id=\"rId1\"/>\
    <sheet name=\"More\" sheetId=\"2\" r:id=\"rId2\"/>\
    </sheets></workbook>";

const STRINGS: &str = "<sst count=\"1\" uniqueCount=\"1\"><si><t>Hello</t></si></sst>";

const STYLES: &str = "<styleSheet>\
    <fonts><font><sz val=\"11\"/></font><font><b/><sz val=\"12\"/></font></fonts>\
    <fills><fill/></fills><borders><border/></borders>\
    <cellXfs><xf fontId=\"0\" fillId=\"0\" borderId=\"0\"/><xf fontId=\"1\" fillId=\"0\" borderId=\"0\"/></cellXfs>\
    </styleSheet>";

const SHEET1: &str = "<worksheet><sheetData>\
    <row r=\"1\"><c r=\"A1\" t=\"s\"><v>0</v></c><c r=\"B1\" s=\"1\"/></row>\
    </sheetData><mergeCells><mergeCell ref=\"A2:B2\"/></mergeCells>\
    <hyperlinks><hyperlink ref=\"A1\" r:id=\"rId1\"/></hyperlinks></worksheet>";

const SHEET1_RELS: &str = "<Relationships>\
    <Relationship Id=\"rId1\" Type=\"hyperlink\" Target=\"https://example.com/\" TargetMode=\"External\"/>\
    </Relationships>";

const SHEET2: &str = "<worksheet><sheetData>\
    <row r=\"1\"><c r=\"A1\"><f>1+1</f><v>2</v></c></row>\
    </sheetData></worksheet>";

fn workbook() -> Vec<u8> {
    archive(&[
        ("xl/_rels/workbook.xml.rels", RELS),
        ("xl/workbook.xml", BOOK),
        ("xl/sharedStrings.xml", STRINGS),
        ("xl/styles.xml", STYLES),
        ("xl/worksheets/sheet1.xml", SHEET1),
        ("xl/worksheets/_rels/sheet1.xml.rels", SHEET1_RELS),
        ("xl/worksheets/sheet2.xml", SHEET2),
    ])
}

#[test]
fn a_workbook_decodes_to_sheets_and_styles() {
    let book = XLSX::new(workbook()).unwrap();
    assert_eq!(book.get_sheets(), vec![String::from("Data"), String::from("More")]);
    let sheet = book.get_sheet_data(String::from("Data"), 0).unwrap();
    assert_eq!(sheet.name, "Data");
    assert_eq!(
        sheet.cells,
        vec![vec![
            Some(Cell {
                v: Some(String::from("Hello")),
                s: 0,
                hyperlink: Some(String::from("https://example.com/")),
            }),
            Some(Cell { v: None, s: 1, hyperlink: None }),
        ]]
    );
    assert_eq!(
        sheet.merged,
        vec![MergedCell {
            from: CellCoords { column: 0, row: 1 },
            to: CellCoords { column: 1, row: 1 }
        }]
    );
    let styles = book.get_styles().unwrap();
    assert_eq!(styles.len(), 2);
    assert_eq!(styles[1].font_weight, Some(String::from("bold")));
    let points: f32 = styles[1].font_size.as_ref().unwrap().parse().unwrap();
    assert_eq!((points / 0.75).to_string() + "px", "16px");
}

#[test]
fn formulas_come_with_the_flag() {
    let book = XLSX::new(workbook()).unwrap();
    assert_eq!(XLSX::with_formulas(), 1);
    let with = book.get_sheet_data(String::from("More"), XLSX::with_formulas()).unwrap();
    assert_eq!(with.cells[0][0].as_ref().unwrap().v, Some(String::from("=1+1")));
    let without = book.get_sheet_data(String::from("More"), 0).unwrap();
    assert_eq!(without.cells[0][0].as_ref().unwrap().v, Some(String::from("2")));
}

#[test]
fn a_sheet_without_relationships_has_no_hyperlinks() {
    let data = archive(&[
        ("xl/_rels/workbook.xml.rels", RELS),
        ("xl/workbook.xml", BOOK),
        ("xl/sharedStrings.xml", STRINGS),
        ("xl/worksheets/sheet1.xml", SHEET1),
    ]);
    let book = XLSX::new(data).unwrap();
    let sheet = book.get_sheet_data(String::from("Data"), 0).unwrap();
    assert_eq!(sheet.cells[0][0].as_ref().unwrap().hyperlink, None);
}

#[test]
fn bytes_that_are_no_archive_are_refused() {
    assert!(matches!(XLSX::new(b"not a zip".to_vec()), Err(XlsxError::NotAnArchive)));
    assert!(matches!(XLSX::new(Vec::new()), Err(XlsxError::NotAnArchive)));
}

#[test]
fn a_workbook_needs_its_relationships_and_its_workbook_part() {
    let data = archive(&[("xl/workbook.xml", BOOK)]);
    match XLSX::new(data) {
        Err(XlsxError::FileNotFound(path)) => assert_eq!(path, "xl/_rels/workbook.xml.rels"),
        _ => panic!("the relationships are missing"),
    }
    let data = archive(&[("xl/_rels/workbook.xml.rels", RELS)]);
    match XLSX::new(data) {
        Err(XlsxError::FileNotFound(path)) => assert_eq!(path, "xl/workbook.xml"),
        _ => panic!("the workbook part is missing"),
    }
}

#[test]
fn a_malformed_workbook_part_is_refused() {
    let data = archive(&[("xl/_rels/workbook.xml.rels", RELS), ("xl/workbook.xml", "<workbook>")]);
    assert!(matches!(XLSX::new(data), Err(XlsxError::Decode(DecodeError::MalformedXml))));
    let data = archive(&[
        ("xl/_rels/workbook.xml.rels", "<Relationships/>"),
        ("xl/workbook.xml", BOOK),
    ]);
    assert!(matches!(XLSX::new(data), Err(XlsxError::Decode(DecodeError::UnresolvedReference))));
}

#[test]
fn missing_or_malformed_shared_strings_leave_the_pool_empty() {
    let sheet = "<worksheet><sheetData><row r=\"1\"><c r=\"A1\"><v>7</v></c></row></sheetData></worksheet>";
    let shared = "<worksheet><sheetData><row r=\"1\"><c r=\"A1\" t=\"s\"><v>0</v></c></row></sheetData></worksheet>";
    for strings in [None, Some("<sst><si><t>kept?</t></si>")] {
        let mut parts = vec![
            ("xl/_rels/workbook.xml.rels", RELS),
            ("xl/workbook.xml", BOOK),
            ("xl/worksheets/sheet1.xml", sheet),
            ("xl/worksheets/sheet2.xml", shared),
        ];
        if let Some(strings) = strings {
            parts.push(("xl/sharedStrings.xml", strings));
        }
        let book = XLSX::new(archive(&parts)).unwrap();
        let data = book.get_sheet_data(String::from("Data"), 0).unwrap();
        assert_eq!(data.cells[0][0].as_ref().unwrap().v, Some(String::from("7")));
        assert!(matches!(
            book.get_sheet_data(String::from("More"), 0),
            Err(XlsxError::Decode(DecodeError::UnresolvedReference))
        ));
    }
}

#[test]
fn a_sheet_that_is_unknown_or_missing_is_an_error() {
    let data = archive(&[("xl/_rels/workbook.xml.rels", RELS), ("xl/workbook.xml", BOOK)]);
    let book = XLSX::new(data).unwrap();
    match book.get_sheet_data(String::from("Nope"), 0) {
        Err(XlsxError::UnknownSheet(name)) => assert_eq!(name, "Nope"),
        _ => panic!("the sheet is unknown"),
    }
    match book.get_sheet_data(String::from("Data"), 0) {
        Err(XlsxError::FileNotFound(path)) => assert_eq!(path, "xl/worksheets/sheet1.xml"),
        _ => panic!("the part is missing"),
    }
    match book.get_styles() {
        Err(XlsxError::FileNotFound(path)) => assert_eq!(path, "xl/styles.xml"),
        _ => panic!("the styles are missing"),
    }
}

/// An archive whose parts are stored as they are, written out by hand: for
/// each part its path, its content, the checksum of the content, the extra
/// field and the flags of its entry.
fn stored(parts: &[(&str, &str, u32, &[u8], u16)]) -> Vec<u8> {
    fn short(out: &mut Vec<u8>, n: u16) {
        out.extend_from_slice(&n.to_le_bytes());
    }
    fn long(out: &mut Vec<u8>, n: u32) {
        out.extend_from_slice(&n.to_le_bytes());
    }
    let mut out = Vec::new();
    let mut directory = Vec::new();
    for (path, content, checksum, extra, flags) in parts {
        let offset = out.len() as u32;
        for (target, central) in [(&mut out, false), (&mut directory, true)] {
            long(target, if central { 0x02014b50 } else { 0x04034b50 });
            if central {
                short(target, 20);
            }
            short(target, 20);
            short(target, *flags);
            short(target, 0);
            short(target, 0);
            short(target, 0x21);
            long(target, *checksum);
            long(target, content.len() as u32);
            long(target, content.len() as u32);
            short(target, path.len() as u16);
            short(target, extra.len() as u16);
            if central {
                short(target, 0);
                short(target, 0);
                short(target, 0);
                long(target, 0);
                long(target, offset);
            }
            target.extend_from_slice(path.as_bytes());
            target.extend_from_slice(extra);
        }
        out.extend_from_slice(content.as_bytes());
    }
    let start = out.len() as u32;
    out.extend_from_slice(&directory);
    long(&mut out, 0x06054b50);
    short(&mut out, 0);
    short(&mut out, 0);
    short(&mut out, parts.len() as u16);
    short(&mut out, parts.len() as u16);
    long(&mut out, directory.len() as u32);
    long(&mut out, start);
    short(&mut out, 0);
    out
}

const SMALL_RELS: &str =
    "<Relationships><Relationship Id=\"rId1\" Target=\"worksheets/sheet1.xml\"/></Relationships>";
const SMALL_BOOK: &str = "<workbook><sheets><sheet name=\"S\" r:id=\"rId1\"/></sheets></workbook>";
const SMALL_RELS_SUM: u32 = 0x59adc4d4;
const SMALL_BOOK_SUM: u32 = 0x82be2c6d;
const AES_FIELD: [u8; 11] = [0x01, 0x99, 7, 0, 2, 0, 0x41, 0x45, 3, 0, 0];

#[test]
fn an_archive_written_by_hand_opens() {
    let data = stored(&[
        ("xl/_rels/workbook.xml.rels", SMALL_RELS, SMALL_RELS_SUM, &[], 0),
        ("xl/workbook.xml", SMALL_BOOK, SMALL_BOOK_SUM, &[], 0),
    ]);
    let book = XLSX::new(data).unwrap();
    assert_eq!(book.get_sheets(), vec![String::from("S")]);
}

#[test]
fn a_part_with_a_wrong_checksum_cannot_be_read() {
    let data = stored(&[
        ("xl/_rels/workbook.xml.rels", SMALL_RELS, SMALL_RELS_SUM, &[], 0),
        ("xl/workbook.xml", SMALL_BOOK, SMALL_BOOK_SUM + 1, &[], 0),
    ]);
    assert!(matches!(XLSX::new(data), Err(XlsxError::Decode(DecodeError::MalformedXml))));
}

#[test]
fn a_part_marked_for_a_cipher_without_being_encrypted_counts_as_absent() {
    let data = stored(&[
        ("xl/_rels/workbook.xml.rels", SMALL_RELS, SMALL_RELS_SUM, &[], 0),
        ("xl/workbook.xml", SMALL_BOOK, SMALL_BOOK_SUM, &AES_FIELD, 0),
    ]);
    match XLSX::new(data) {
        Err(XlsxError::FileNotFound(path)) => assert_eq!(path, "xl/workbook.xml"),
        _ => panic!("the part cannot be opened"),
    }
    let data = stored(&[
        ("xl/_rels/workbook.xml.rels", SMALL_RELS, SMALL_RELS_SUM, &[], 0),
        ("xl/workbook.xml", SMALL_BOOK, SMALL_BOOK_SUM, &[], 0),
        ("xl/styles.xml", "<styleSheet/>", 0, &AES_FIELD, 0),
        ("xl/worksheets/sheet1.xml", "<worksheet/>", 0, &AES_FIELD, 0),
        ("xl/worksheets/_rels/sheet1.xml.rels", "<Relationships/>", 0, &AES_FIELD, 0),
        ("xl/sharedStrings.xml", "<sst/>", 0, &AES_FIELD, 0),
    ]);
    let book = XLSX::new(data).unwrap();
    assert!(matches!(book.get_styles(), Err(XlsxError::FileNotFound(_))));
    assert!(matches!(book.get_sheet_data(String::from("S"), 0), Err(XlsxError::FileNotFound(_))));
}

#[test]
fn an_encrypted_part_is_no_part_of_a_workbook() {
    for extra in [&[][..], &AES_FIELD[..]] {
        let data = stored(&[
            ("xl/_rels/workbook.xml.rels", SMALL_RELS, SMALL_RELS_SUM, &[], 0),
            ("xl/workbook.xml", SMALL_BOOK, SMALL_BOOK_SUM, extra, 1),
        ]);
        assert!(XLSX::new(data).is_err());
    }
}
