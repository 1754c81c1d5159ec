use xlsx_import::dict::TextMap;
use xlsx_import::error::DecodeError;
use xlsx_import::sheet::{
    Cell, CellCoords, ColumnData, DataValidation, DataValidationSource, MergedCell, RowData,
    SheetData,
};
use xlsx_import::sheet_reader::{decode_sheet, decode_sheet_from, read_source, WITH_FORMULAS};
use xlsx_import::xml::{read_events, EventReader};

fn decode(xml: &str, pool: &[&str], links: &TextMap, flags: u32) -> Result<SheetData, DecodeError> {
    let events = read_events(xml.as_bytes());
    let pool: Vec<String> = pool.iter().map(|s| s.to_string()).collect();
    decode_sheet(String::from("Sheet1"), &events, &pool, links, flags)
}

fn plain(xml: &str) -> Result<SheetData, DecodeError> {
    decode(xml, &[], &TextMap::new(), 0)
}

fn value(v: &str) -> Option<Cell> {
    Some(Cell { v: Some(v.to_string()), s: 0, hyperlink: None })
}

fn styled(s: u32) -> Option<Cell> {
    Some(Cell { v: None, s, hyperlink: None })
}

#[test]
fn literal_values_fill_the_grid() {
    let sheet = plain(
        "<worksheet><sheetData>\
         <row r=\"1\"><c r=\"A1\"><v>1</v></c><c r=\"C1\"><v>x</v></c></row>\
         <row r=\"2\"><c r=\"B2\" s=\"3\"/></row>\
         </sheetData></worksheet>",
    )
    .unwrap();
    assert_eq!(sheet.name, "Sheet1");
    assert_eq!(
        sheet.cells,
        vec![vec![value("1"), None, value("x")], vec![None, styled(3), None]]
    );
    assert_eq!(sheet.rows, vec![RowData { height: None, hidden: None }; 2]);
    assert_eq!(sheet.cols, vec![ColumnData { width: None, hidden: None }; 3]);
}

#[test]
fn every_row_has_the_column_count() {
    let sheet = plain(
        "<worksheet><cols><col min=\"1\" max=\"9\" width=\"12\" customWidth=\"1\"/></cols><sheetData>\
         <row r=\"1\"><c r=\"D1\"><v>1</v></c></row>\
         <row r=\"4\"><c r=\"A4\"><v>2</v></c></row>\
         </sheetData></worksheet>",
    )
    .unwrap();
    assert_eq!(sheet.cells.len(), 4);
    assert_eq!(sheet.rows.len(), 4);
    assert_eq!(sheet.cols.len(), 4);
    for row in &sheet.cells {
        assert_eq!(row.len(), 4);
    }
}

#[test]
fn trailing_rows_without_cells_are_dropped_and_inner_ones_kept() {
    let sheet = plain(
        "<worksheet><sheetData>\
         <row r=\"1\"><c r=\"A1\"><v>1</v></c></row>\
         <row r=\"2\"/>\
         <row r=\"3\"><c r=\"B3\"/></row>\
         <row r=\"4\"><c r=\"B4\"><v>2</v></c></row>\
         <row r=\"5\"/>\
         <row r=\"6\"><c r=\"A6\"/></row>\
         <row r=\"7\"><c r=\"C7\"/></row>\
         </sheetData></worksheet>",
    )
    .unwrap();
    assert_eq!(
        sheet.cells,
        vec![
            vec![value("1"), None, None],
            vec![None, None, None],
            vec![None, None, None],
            vec![None, value("2"), None]
        ]
    );
    assert_eq!(sheet.rows.len(), 4);
    assert_eq!(sheet.cols.len(), 3);
}

#[test]
fn shared_strings_resolve_by_index() {
    let xml = "<worksheet><sheetData><row r=\"1\">\
               <c r=\"A1\" t=\"s\"><v>1</v></c>\
               <c r=\"B1\" t=\"s\"><v>0</v></c>\
               <c r=\"C1\" t=\"s\"><v>2</v></c>\
               </row></sheetData></worksheet>";
    let sheet = decode(xml, &["Hello", "World", ""], &TextMap::new(), 0).unwrap();
    assert_eq!(sheet.cells, vec![vec![value("World"), value("Hello"), None]]);
}

#[test]
fn a_shared_string_index_outside_the_pool_is_unresolved() {
    let xml = "<worksheet><sheetData><row r=\"1\"><c r=\"A1\" t=\"s\"><v>1</v></c></row></sheetData></worksheet>";
    assert_eq!(
        decode(xml, &["only"], &TextMap::new(), 0),
        Err(DecodeError::UnresolvedReference)
    );
}

#[test]
fn a_shared_string_index_that_is_no_number_is_malformed() {
    let xml = "<worksheet><sheetData><row r=\"1\"><c r=\"A1\" t=\"s\"><v>x</v></c></row></sheetData></worksheet>";
    assert_eq!(decode(xml, &["only"], &TextMap::new(), 0), Err(DecodeError::MalformedXml));
}

#[test]
fn formulas_are_captured_only_when_asked_for() {
    let xml = "<worksheet><sheetData><row r=\"1\">\
               <c r=\"A1\"><f>A1+B1</f><v>3</v></c>\
               <c r=\"B1\"><f>NOW()</f></c>\
               </row></sheetData></worksheet>";
    let with = decode(xml, &[], &TextMap::new(), WITH_FORMULAS).unwrap();
    assert_eq!(with.cells, vec![vec![value("=A1+B1"), value("=NOW()")]]);
    let without = decode(xml, &[], &TextMap::new(), 0).unwrap();
    assert_eq!(without.cells, vec![vec![value("3"), None]]);
}

#[test]
fn merged_ranges_are_zero_based_and_inclusive() {
    let sheet = plain(
        "<worksheet><sheetData/><mergeCells><mergeCell ref=\"B2:D4\"/><mergeCell ref=\"A2:B2\"/></mergeCells></worksheet>",
    )
    .unwrap();
    assert_eq!(
        sheet.merged,
        vec![
            MergedCell {
                from: CellCoords { column: 1, row: 1 },
                to: CellCoords { column: 3, row: 3 }
            },
            MergedCell {
                from: CellCoords { column: 0, row: 1 },
                to: CellCoords { column: 1, row: 1 }
            },
        ]
    );
}

#[test]
fn a_merged_range_without_colon_is_malformed() {
    assert_eq!(
        plain("<worksheet><mergeCells><mergeCell ref=\"B2\"/></mergeCells></worksheet>"),
        Err(DecodeError::MalformedXml)
    );
}

#[test]
fn validation_lists_and_references() {
    let sheet = plain(
        "<worksheet><sheetData/><dataValidations>\
         <dataValidation type=\"list\" sqref=\"A1:A5\"><formula1>\"Yes,No\"</formula1></dataValidation>\
         <dataValidation type=\"list\" sqref=\"B1\"><formula1>Sheet2!$A$1:$A$5</formula1></dataValidation>\
         <dataValidation type=\"list\" sqref=\"C1\"><formula1>\" a , b ,c\"</formula1></dataValidation>\
         <dataValidation type=\"list\"><formula1>\"x\"</formula1></dataValidation>\
         <dataValidation type=\"list\" sqref=\"D1\"></dataValidation>\
         </dataValidations></worksheet>",
    )
    .unwrap();
    assert_eq!(
        sheet.validations,
        vec![
            DataValidation {
                range: String::from("A1:A5"),
                source: DataValidationSource::List(vec![String::from("Yes"), String::from("No")]),
            },
            DataValidation {
                range: String::from("B1"),
                source: DataValidationSource::RangeReference(String::from("Sheet2!$A$1:$A$5")),
            },
            DataValidation {
                range: String::from("C1"),
                source: DataValidationSource::List(vec![
                    String::from("a"),
                    String::from("b"),
                    String::from("c")
                ]),
            },
        ]
    );
}

#[test]
fn validation_sources() {
    assert_eq!(
        read_source("\"Yes,No\""),
        Some(DataValidationSource::List(vec![String::from("Yes"), String::from("No")]))
    );
    assert_eq!(
        read_source("Sheet2!$A$1:$A$5"),
        Some(DataValidationSource::RangeReference(String::from("Sheet2!$A$1:$A$5")))
    );
    assert_eq!(read_source("\"\""), Some(DataValidationSource::List(vec![String::new()])));
    assert_eq!(
        read_source("\",\u{a0}x\u{3000},\""),
        Some(DataValidationSource::List(vec![String::new(), String::from("x"), String::new()]))
    );
    assert_eq!(read_source("\""), None);
    assert_eq!(read_source(""), Some(DataValidationSource::RangeReference(String::new())));
}

#[test]
fn list_items_are_trimmed_as_the_standard_library_trims() {
    let mut white = String::new();
    for code in 0..0x11000u32 {
        if let Some(c) = char::from_u32(code) {
            if c.is_whitespace() {
                white.push(c);
            }
        }
    }
    let formula = format!("\"{}a b{},{}\"", white, white, white);
    assert_eq!(
        read_source(&formula),
        Some(DataValidationSource::List(vec![String::from("a b"), String::new()]))
    );
    for code in 0..0x11000u32 {
        if let Some(c) = char::from_u32(code) {
            if c == ',' || c == '"' {
                continue;
            }
            let formula = format!("\"{}x{}\"", c, c);
            let expected = format!("{}x{}", c, c).trim().to_string();
            assert_eq!(read_source(&formula), Some(DataValidationSource::List(vec![expected])));
        }
    }
}

#[test]
fn frozen_panes_keep_the_text_of_the_split() {
    let sheet = plain(
        "<worksheet><sheetViews><sheetView><pane xSplit=\"1\" ySplit=\"2.0\" state=\"frozen\"/></sheetView></sheetViews><sheetData/></worksheet>",
    )
    .unwrap();
    assert_eq!(sheet.frozen_cols, Some(String::from("1")));
    assert_eq!(sheet.frozen_rows, Some(String::from("2.0")));
}

#[test]
fn columns_take_widths_and_defaults() {
    let sheet = plain(
        "<worksheet><sheetFormatPr defaultColWidth=\"9\" defaultRowHeight=\"15\"/><cols>\
         <col min=\"2\" max=\"3\" width=\"20.5\" customWidth=\"1\" hidden=\"1\"/>\
         <col min=\"5\" max=\"5\" width=\"7\"/>\
         </cols><sheetData>\
         <row r=\"2\" ht=\"30\" customHeight=\"true\"><c r=\"F2\"><v>1</v></c></row>\
         <row r=\"3\" ht=\"31\" hidden=\"0\"><c r=\"A3\"><v>1</v></c></row>\
         </sheetData></worksheet>",
    )
    .unwrap();
    let nine = Some(String::from("9"));
    let custom = ColumnData { width: Some(String::from("20.5")), hidden: Some(true) };
    let default = ColumnData { width: nine.clone(), hidden: None };
    assert_eq!(
        sheet.cols,
        vec![default.clone(), custom.clone(), custom, default.clone(), default.clone(), default]
    );
    let fifteen = Some(String::from("15"));
    assert_eq!(
        sheet.rows,
        vec![
            RowData { height: fifteen.clone(), hidden: None },
            RowData { height: Some(String::from("30")), hidden: None },
            RowData { height: fifteen, hidden: Some(false) },
        ]
    );
}

#[test]
fn hyperlinks_attach_to_cells_that_exist() {
    let mut links = TextMap::new();
    links.insert(String::from("rId1"), String::from("https://example.com/"));
    links.insert(String::from("rId2"), String::from("https://example.org/"));
    let xml = "<worksheet><sheetData><row r=\"1\">\
               <c r=\"A1\"><v>site</v></c><c r=\"B1\"/>\
               </row></sheetData><hyperlinks>\
               <hyperlink ref=\"A1\" r:id=\"rId1\"/>\
               <hyperlink ref=\"B1\" r:id=\"rId2\"/>\
               <hyperlink ref=\"A1:B2\" r:id=\"rId2\"/>\
               <hyperlink ref=\"A1\" r:id=\"rId9\"/>\
               </hyperlinks></worksheet>";
    let sheet = decode(xml, &[], &links, 0).unwrap();
    assert_eq!(
        sheet.cells,
        vec![vec![
            Some(Cell {
                v: Some(String::from("site")),
                s: 0,
                hyperlink: Some(String::from("https://example.com/")),
            }),
            None
        ]]
    );
}

#[test]
fn a_hyperlink_recorded_before_its_cell_keeps_the_cell() {
    let mut links = TextMap::new();
    links.insert(String::from("rId1"), String::from("https://example.com/"));
    let xml = "<worksheet><hyperlinks><hyperlink ref=\"B1\" r:id=\"rId1\"/></hyperlinks>\
               <sheetData><row r=\"1\"><c r=\"B1\"/></row></sheetData></worksheet>";
    let sheet = decode(xml, &[], &links, 0).unwrap();
    assert_eq!(
        sheet.cells,
        vec![vec![
            None,
            Some(Cell { v: None, s: 0, hyperlink: Some(String::from("https://example.com/")) })
        ]]
    );
}

#[test]
fn a_sheet_that_ends_early_is_malformed() {
    assert_eq!(plain("<worksheet><sheetData>"), Err(DecodeError::MalformedXml));
    assert_eq!(plain(""), Err(DecodeError::MalformedXml));
}

#[test]
fn numbers_that_are_no_numbers_are_malformed() {
    assert_eq!(
        plain("<worksheet><sheetData><row r=\"x\"/></sheetData></worksheet>"),
        Err(DecodeError::MalformedXml)
    );
    assert_eq!(
        plain("<worksheet><sheetData><row r=\"0\"/></sheetData></worksheet>"),
        Err(DecodeError::MalformedXml)
    );
    assert_eq!(
        plain("<worksheet><sheetData><row/></sheetData></worksheet>"),
        Err(DecodeError::MalformedXml)
    );
    assert_eq!(
        plain("<worksheet><sheetData><row r=\"1\"><c r=\"A1\" s=\"-1\"/></row></sheetData></worksheet>"),
        Err(DecodeError::MalformedXml)
    );
    assert_eq!(
        plain("<worksheet><cols><col min=\"a\" max=\"2\"/></cols></worksheet>"),
        Err(DecodeError::MalformedXml)
    );
}

#[test]
fn a_cell_outside_a_row_is_malformed() {
    assert_eq!(
        plain("<worksheet><sheetData><c r=\"A1\"><v>1</v></c></sheetData></worksheet>"),
        Err(DecodeError::MalformedXml)
    );
}

#[test]
fn a_cell_without_address_beyond_the_columns_is_malformed() {
    assert_eq!(
        plain("<worksheet><sheetData><row r=\"1\"><c><v>1</v></c></row></sheetData></worksheet>"),
        Err(DecodeError::MalformedXml)
    );
}

#[test]
fn an_ill_formed_address_is_malformed() {
    assert_eq!(
        plain("<worksheet><sheetData><row r=\"1\"><c r=\"a1\"><v>1</v></c></row></sheetData></worksheet>"),
        Err(DecodeError::MalformedXml)
    );
    assert_eq!(
        plain("<worksheet><sheetData><row r=\"1\"><c r=\"A0\"><v>1</v></c></row></sheetData></worksheet>"),
        Err(DecodeError::MalformedXml)
    );
}

#[test]
fn a_plus_sign_before_a_number_is_read() {
    let sheet = plain(
        "<worksheet><sheetData><row r=\"+2\"><c r=\"A2\" s=\"+7\"/></row></sheetData></worksheet>",
    )
    .unwrap();
    assert_eq!(sheet.cells, vec![vec![None], vec![styled(7)]]);
}

#[test]
fn a_cell_is_in_the_grid_only_where_it_holds_something() {
    let mut links = TextMap::new();
    links.insert(String::from("rId1"), String::from("https://example.com/"));
    let xml = "<worksheet><hyperlinks><hyperlink ref=\"D1\" r:id=\"rId1\"/></hyperlinks><sheetData>\
               <row r=\"1\"><c r=\"A1\"/><c r=\"B1\" s=\"0\"/><c r=\"C1\" t=\"s\"><v>0</v></c>\
               <c r=\"D1\"/><c r=\"E1\" s=\"2\"/><c r=\"F1\"><v></v></c><c r=\"G1\"><v>x</v></c></row>\
               </sheetData></worksheet>";
    let sheet = decode(xml, &[""], &links, 0).unwrap();
    assert_eq!(sheet.cells.len(), 1);
    let row = &sheet.cells[0];
    assert_eq!(row.len(), 7);
    assert!(row[0].is_none() && row[1].is_none() && row[2].is_none() && row[5].is_none());
    for cell in row.iter().flatten() {
        assert!(cell.v.is_some() || cell.s > 0 || cell.hyperlink.is_some());
    }
    assert_eq!(row[3].as_ref().unwrap().hyperlink, Some(String::from("https://example.com/")));
    assert_eq!(row[4], styled(2));
    assert_eq!(row[6], value("x"));
}

#[test]
fn rows_out_of_order_go_to_the_end_of_the_grid() {
    let sheet = plain(
        "<worksheet><sheetData>\
         <row r=\"2\"><c r=\"A2\"><v>two</v></c></row>\
         <row r=\"1\"><c r=\"B1\"><v>one</v></c></row>\
         </sheetData></worksheet>",
    )
    .unwrap();
    assert_eq!(sheet.cells, vec![vec![None, None], vec![value("two"), value("one")]]);
    assert_eq!(sheet.rows.len(), 2);
}

#[test]
fn a_validation_rule_takes_the_text_of_its_first_formula() {
    let sheet = plain(
        "<worksheet><sheetData><row r=\"1\"><c r=\"A1\"><v>1</v></c></row></sheetData>\
         <dataValidations><dataValidation sqref=\"A1\">\
         <formula1>a</formula1><row r=\"9\"/><formula2>b</formula2>\
         </dataValidation></dataValidations></worksheet>",
    )
    .unwrap();
    assert_eq!(sheet.cells.len(), 1);
    assert_eq!(
        sheet.validations,
        vec![DataValidation {
            range: String::from("A1"),
            source: DataValidationSource::RangeReference(String::from("a")),
        }]
    );
    let indented = plain(
        "<worksheet><sheetData/><dataValidations>\n  <dataValidation sqref=\"B2\">\n    \
         <formula1>\"x, y\"</formula1>\n  </dataValidation>\n</dataValidations></worksheet>",
    )
    .unwrap();
    assert_eq!(
        indented.validations,
        vec![DataValidation {
            range: String::from("B2"),
            source: DataValidationSource::List(vec![String::from("x"), String::from("y")]),
        }]
    );
}

#[test]
fn column_entries_are_cut_to_the_columns_in_use() {
    let sheet = plain(
        "<worksheet><cols><col min=\"1\" max=\"16384\" width=\"3\" customWidth=\"1\"/></cols>\
         <sheetData><row r=\"1\"><c r=\"B1\"><v>1</v></c></row></sheetData></worksheet>",
    )
    .unwrap();
    assert_eq!(sheet.cols, vec![ColumnData { width: Some(String::from("3")), hidden: None }; 2]);
    let none = plain("<worksheet><cols><col min=\"1\" max=\"3\"/></cols><sheetData/></worksheet>")
        .unwrap();
    assert!(none.cols.is_empty() && none.rows.is_empty() && none.cells.is_empty());
}

#[test]
fn sizes_that_are_no_numbers_are_malformed() {
    for xml in [
        "<worksheet><sheetFormatPr defaultColWidth=\"wide\"/></worksheet>",
        "<worksheet><sheetFormatPr defaultRowHeight=\"\"/></worksheet>",
        "<worksheet><cols><col min=\"1\" max=\"1\" width=\"1,5\"/></cols></worksheet>",
        "<worksheet><sheetData><row r=\"1\" ht=\"12pt\"/></sheetData></worksheet>",
    ] {
        assert_eq!(plain(xml), Err(DecodeError::MalformedXml), "{}", xml);
    }
    let sheet = plain(
        "<worksheet><sheetFormatPr defaultColWidth=\"1e1\"/><cols><col min=\"1\" max=\"1\" width=\".5\" customWidth=\"1\"/></cols>\
         <sheetData><row r=\"1\" ht=\"-INF\" customHeight=\"1\"><c r=\"B1\"><v>1</v></c></row></sheetData></worksheet>",
    )
    .unwrap();
    assert_eq!(sheet.cols[0].width, Some(String::from(".5")));
    assert_eq!(sheet.cols[1].width, Some(String::from("1e1")));
    assert_eq!(sheet.rows[0].height, Some(String::from("-INF")));
}

#[test]
fn a_split_that_is_no_number_changes_nothing() {
    let sheet = plain(
        "<worksheet><sheetViews><sheetView>\
         <pane xSplit=\"2\" ySplit=\"top\"/><pane xSplit=\"left\" ySplit=\"3.5\"/>\
         </sheetView></sheetViews><sheetData/></worksheet>",
    )
    .unwrap();
    assert_eq!(sheet.frozen_cols, Some(String::from("2")));
    assert_eq!(sheet.frozen_rows, Some(String::from("3.5")));
}

#[test]
fn every_size_of_a_sheet_reads_as_a_number() {
    let sheet = plain(
        "<worksheet><sheetFormatPr defaultColWidth=\"9.5\" defaultRowHeight=\"15\"/>\
         <sheetViews><sheetView><pane xSplit=\"1\" ySplit=\"2\"/></sheetView></sheetViews>\
         <cols><col min=\"2\" max=\"2\" customWidth=\"1\"/></cols>\
         <sheetData><row r=\"2\" customHeight=\"1\"><c r=\"C2\"><v>1</v></c></row></sheetData></worksheet>",
    )
    .unwrap();
    let widths: Vec<f32> =
        sheet.cols.iter().map(|c| c.width.as_ref().unwrap().parse().unwrap()).collect();
    assert_eq!(widths, vec![9.5, 0.0, 9.5]);
    let heights: Vec<f32> =
        sheet.rows.iter().map(|r| r.height.as_ref().unwrap().parse().unwrap()).collect();
    assert_eq!(heights, vec![15.0, 0.0]);
    assert_eq!(sheet.frozen_cols.unwrap().parse::<f64>(), Ok(1.0));
    assert_eq!(sheet.frozen_rows.unwrap().parse::<f64>(), Ok(2.0));
}

#[test]
fn a_reader_of_a_sheet_decodes_as_its_events_do() {
    let xml = "<worksheet><sheetData><row r=\"1\"><c r=\"A1\" t=\"s\"><v>0</v></c></row></sheetData></worksheet><more/>";
    let pool = vec![String::from("x")];
    let mut reader = EventReader::new(xml.as_bytes());
    let streamed = decode_sheet_from(String::from("Sheet1"), &mut reader, &pool, &TextMap::new(), 0);
    assert_eq!(streamed, decode(xml, &["x"], &TextMap::new(), 0));
    assert_eq!(streamed.unwrap().cells, vec![vec![value("x")]]);
    let mut reader = EventReader::new(b"<worksheet>");
    assert_eq!(
        decode_sheet_from(String::from("Sheet1"), &mut reader, &pool, &TextMap::new(), 0),
        Err(DecodeError::MalformedXml)
    );
}
