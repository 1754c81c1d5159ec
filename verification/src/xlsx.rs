//! A workbook as a whole: the archive, the sheets it declares and the
//! strings its cells share.

use vstd::prelude::*;
use crate::archive::{archive_part, extract_part, PartRead, PartView};
use crate::dict::{Entries, TextMap};
use crate::error::{DecodeError, XlsxError, XlsxErrorView};
use crate::shared_strings::{decode_shared_strings_from, strings_of};
use crate::sheet::{is_rectangular, SheetData, SheetView};
use crate::sheet_laws::{all_hold_something, sizes_are_numbers};
use crate::styles_laws::font_sizes_are_numbers;
use crate::sheet_reader::{decode_sheet_from, env_of, sheet_of, WITH_FORMULAS};
use crate::styles::{StyleRecord, StyleView};
use crate::styles_reader::{decode_styles_from, styles_of};
use crate::text::same_text;
use crate::workbook::{
    decode_relationships_from, decode_workbook_from, relationships_of, relationships_path,
    sheet_relationships_path, sheets_of, Sheets,
};
use crate::xml::{events_of, EventReader, EventView};

verus! {

/// A workbook that was opened.
pub struct XLSX {
    data: Vec<u8>,
    shared_strings: Vec<String>,
    sheets: Vec<(String, String)>,
}

/// What an `XLSX` holds.
pub struct XlsxView {
    /// The bytes of the archive.
    pub archive: Seq<u8>,
    /// The shared strings.
    pub pool: Seq<Seq<char>>,
    /// The sheets, in the order the workbook declares them.
    pub sheets: Sheets,
}

impl DeepView for XLSX {
    type V = XlsxView;

    closed spec fn deep_view(&self) -> XlsxView {
        XlsxView {
            archive: self.data@,
            pool: self.shared_strings.deep_view(),
            sheets: self.sheets.deep_view(),
        }
    }
}

/// What a function of the workbook returns, seen through its view.
pub open spec fn outcome<T: DeepView>(result: Result<T, XlsxError>) -> Result<T::V, XlsxErrorView> {
    match result {
        Ok(value) => Ok(value.deep_view()),
        Err(e) => Err(e.deep_view()),
    }
}

/// The events of the part of the given path, or the error that stands for
/// a part that is not there or cannot be read.
pub open spec fn events_at(data: Seq<u8>, path: Seq<char>) -> Result<Seq<EventView>, XlsxErrorView> {
    match archive_part(data, path) {
        PartView::NoArchive => Err(XlsxErrorView::NotAnArchive),
        PartView::Absent => Err(XlsxErrorView::FileNotFound(path)),
        PartView::Unreadable => Err(XlsxErrorView::Decode(DecodeError::MalformedXml)),
        PartView::Bytes(bytes) => Ok(events_of(bytes)),
    }
}

/// What a decoder gave, as the outcome of a function of the workbook.
pub open spec fn raised<T>(result: Result<T, DecodeError>) -> Result<T, XlsxErrorView> {
    match result {
        Ok(value) => Ok(value),
        Err(e) => Err(XlsxErrorView::Decode(e)),
    }
}

/// The shared strings of the workbook in the archive `data`: none where
/// the shared-strings part is not there, cannot be read or cannot be
/// decoded.
pub open spec fn pool_of(data: Seq<u8>) -> Seq<Seq<char>> {
    match archive_part(data, "xl/sharedStrings.xml"@) {
        PartView::Bytes(bytes) => match strings_of(events_of(bytes)) {
            Ok(pool) => pool,
            Err(_) => Seq::empty(),
        },
        _ => Seq::empty(),
    }
}

/// What opening the archive `data` gives: the sheets that the workbook
/// part declares, each with the part that the relationships of the
/// workbook name for it, and the shared strings. The relationships of the
/// workbook and the workbook part must be there and decode.
pub open spec fn opened(data: Seq<u8>) -> Result<XlsxView, XlsxErrorView> {
    match events_at(data, "xl/_rels/workbook.xml.rels"@) {
        Err(e) => Err(e),
        Ok(events) => match relationships_of(events, false) {
            Err(e) => Err(XlsxErrorView::Decode(e)),
            Ok(map) => match events_at(data, "xl/workbook.xml"@) {
                Err(e) => Err(e),
                Ok(events) => match sheets_of(events, map) {
                    Err(e) => Err(XlsxErrorView::Decode(e)),
                    Ok(sheets) => Ok(XlsxView { archive: data, pool: pool_of(data), sheets }),
                },
            },
        },
    }
}

/// The path of the part of the first sheet with the given name.
pub open spec fn sheet_path(sheets: Sheets, name: Seq<char>) -> Option<Seq<char>>
    decreases sheets.len(),
{
    if sheets.len() == 0 {
        None
    } else if sheets[0].0 == name {
        Some(sheets[0].1)
    } else {
        sheet_path(sheets.drop_first(), name)
    }
}

/// The relationships of the sheet that lies in the part of the given path:
/// none where the relationships part of the sheet is not there.
pub open spec fn links_of(data: Seq<u8>, path: Seq<char>) -> Result<Entries, XlsxErrorView> {
    match archive_part(data, relationships_path(path)) {
        PartView::Bytes(bytes) => raised(relationships_of(events_of(bytes), true)),
        PartView::Unreadable => Err(XlsxErrorView::Decode(DecodeError::MalformedXml)),
        _ => Ok(Seq::empty()),
    }
}

/// What reading the sheet of the given name gives: the sheet that its
/// part decodes to, against the shared strings of the workbook and the
/// relationships of the sheet.
pub open spec fn sheet_read(book: XlsxView, name: Seq<char>, flags: u32) -> Result<
    SheetView,
    XlsxErrorView,
> {
    match sheet_path(book.sheets, name) {
        None => Err(XlsxErrorView::UnknownSheet(name)),
        Some(path) => match links_of(book.archive, path) {
            Err(e) => Err(e),
            Ok(links) => match events_at(book.archive, path) {
                Err(e) => Err(e),
                Ok(events) => raised(sheet_of(name, events, env_of(book.pool, links, flags))),
            },
        },
    }
}

/// What reading the style table gives: the table that the styles part
/// decodes to.
pub open spec fn styles_read(book: XlsxView) -> Result<Seq<StyleView>, XlsxErrorView> {
    match events_at(book.archive, "xl/styles.xml"@) {
        Err(e) => Err(e),
        Ok(events) => raised(styles_of(events)),
    }
}

/// The names of the sheets, in order.
pub open spec fn sheet_names(sheets: Sheets) -> Seq<Seq<char>> {
    Seq::new(sheets.len(), |i: int| sheets[i].0)
}

/// The bytes of a part of the archive, or the error that stands for a part
/// that is not there or cannot be read.
fn part_bytes(data: &[u8], path: &str) -> (bytes: Result<Vec<u8>, XlsxError>)
    ensures
        match bytes {
            Ok(b) => events_at(data@, path@) == Ok::<Seq<EventView>, XlsxErrorView>(
                events_of(b@),
            ),
            Err(e) => events_at(data@, path@) == Err::<Seq<EventView>, XlsxErrorView>(
                e.deep_view(),
            ),
        },
{
    match extract_part(data, path) {
        PartRead::NoArchive => Err(XlsxError::NotAnArchive),
        PartRead::Absent => Err(XlsxError::FileNotFound(path.to_owned())),
        PartRead::Unreadable => Err(XlsxError::Decode(DecodeError::MalformedXml)),
        PartRead::Bytes(bytes) => Ok(bytes),
    }
}

/// The shared strings of the workbook in an archive.
fn read_pool(data: &[u8]) -> (pool: Vec<String>)
    ensures
        pool.deep_view() == pool_of(data@),
{
    match extract_part(data, "xl/sharedStrings.xml") {
        PartRead::Bytes(bytes) => {
            let mut events = EventReader::new(bytes.as_slice());
            match decode_shared_strings_from(&mut events) {
                Ok(pool) => pool,
                Err(_) => empty_pool(),
            }
        },
        _ => empty_pool(),
    }
}

/// The relationships of the sheet that lies in the part of the given path.
fn read_links(data: &[u8], path: &str) -> (links: Result<TextMap, XlsxError>)
    ensures
        outcome(links) == links_of(data@, path@),
{
    let links_path = sheet_relationships_path(path);
    match extract_part(data, links_path.as_str()) {
        PartRead::Bytes(bytes) => {
            let mut events = EventReader::new(bytes.as_slice());
            match decode_relationships_from(&mut events, true) {
                Ok(links) => Ok(links),
                Err(e) => Err(XlsxError::Decode(e)),
            }
        },
        PartRead::Unreadable => Err(XlsxError::Decode(DecodeError::MalformedXml)),
        _ => Ok(TextMap::new()),
    }
}

impl XLSX {
    /// Opens a workbook: reads the relationships of the workbook, the
    /// sheets it declares and the shared strings. Shared strings that are
    /// not there or cannot be decoded leave the pool empty.
    pub fn new(data: Vec<u8>) -> (book: Result<XLSX, XlsxError>)
        ensures
            outcome(book) == opened(data@),
    {
        let bytes = part_bytes(data.as_slice(), "xl/_rels/workbook.xml.rels")?;
        let mut events = EventReader::new(bytes.as_slice());
        let map = match decode_relationships_from(&mut events, false) {
            Ok(map) => map,
            Err(e) => {
                return Err(XlsxError::Decode(e));
            },
        };
        let bytes = part_bytes(data.as_slice(), "xl/workbook.xml")?;
        let mut events = EventReader::new(bytes.as_slice());
        let sheets = match decode_workbook_from(&mut events, &map) {
            Ok(sheets) => sheets,
            Err(e) => {
                return Err(XlsxError::Decode(e));
            },
        };
        let shared_strings = read_pool(data.as_slice());
        Ok(XLSX { data, shared_strings, sheets })
    }

    /// The flag that asks `get_sheet_data` for the text of formulas.
    pub fn with_formulas() -> (flag: u32)
        ensures
            flag == WITH_FORMULAS,
    {
        WITH_FORMULAS
    }

    /// The names of the sheets, in the order the workbook declares them.
    pub fn get_sheets(&self) -> (names: Vec<String>)
        ensures
            names.deep_view() == sheet_names(self.deep_view().sheets),
    {
        let mut names: Vec<String> = Vec::new();
        let mut i: usize = 0;
        while i < self.sheets.len()
            invariant
                i <= self.sheets@.len(),
                names@.len() == i,
                forall|j: int| 0 <= j < i ==> names@[j]@ == self.sheets@[j].0@,
            decreases self.sheets@.len() - i,
        {
            names.push(self.sheets[i].0.clone());
            i = i + 1;
        }
        assert(names.deep_view() =~= sheet_names(self.deep_view().sheets));
        names
    }

    /// The index of the first sheet with the given name.
    fn find_sheet(&self, name: &str) -> (found: Option<usize>)
        ensures
            match found {
                Some(i) => i < self.sheets@.len() && sheet_path(self.deep_view().sheets, name@)
                    == Some(self.sheets@[i as int].1@),
                None => sheet_path(self.deep_view().sheets, name@) is None,
            },
    {
        let ghost all = self.sheets.deep_view();
        let mut i: usize = 0;
        assert(all.skip(0) == all);
        while i < self.sheets.len()
            invariant
                i <= self.sheets@.len(),
                all == self.sheets.deep_view(),
                sheet_path(all, name@) == sheet_path(all.skip(i as int), name@),
            decreases self.sheets@.len() - i,
        {
            assert(all.skip(i as int)[0] == all[i as int]);
            assert(all.skip(i as int).drop_first() == all.skip(i + 1));
            if same_text(self.sheets[i].0.as_str(), name) {
                return Some(i);
            }
            i = i + 1;
        }
        None
    }

    /// Reads the sheet of the given name. `flags` says whether the text of
    /// formulas is asked for. Relationships of the sheet that are not there
    /// leave its hyperlinks without target.
    pub fn get_sheet_data(&self, sheet_name: String, flags: u32) -> (sheet: Result<
        SheetData,
        XlsxError,
    >)
        ensures
            outcome(sheet) == sheet_read(self.deep_view(), sheet_name@, flags),
            sheet matches Ok(decoded) ==> is_rectangular(decoded.deep_view())
                && all_hold_something(decoded.deep_view().cells) && sizes_are_numbers(
                decoded.deep_view(),
            ),
    {
        let index = match self.find_sheet(sheet_name.as_str()) {
            Some(index) => index,
            None => {
                return Err(XlsxError::UnknownSheet(sheet_name));
            },
        };
        let path = self.sheets[index].1.as_str();
        let links = read_links(self.data.as_slice(), path)?;
        let bytes = part_bytes(self.data.as_slice(), path)?;
        let mut events = EventReader::new(bytes.as_slice());
        match decode_sheet_from(sheet_name, &mut events, &self.shared_strings, &links, flags) {
            Ok(sheet) => Ok(sheet),
            Err(e) => Err(XlsxError::Decode(e)),
        }
    }

    /// Reads the style table: one record per cell format, at the index
    /// that cells refer to.
    pub fn get_styles(&self) -> (styles: Result<Vec<StyleRecord>, XlsxError>)
        ensures
            outcome(styles) == styles_read(self.deep_view()),
            styles matches Ok(table) ==> font_sizes_are_numbers(table.deep_view()),
    {
        let bytes = part_bytes(self.data.as_slice(), "xl/styles.xml")?;
        let mut events = EventReader::new(bytes.as_slice());
        match decode_styles_from(&mut events) {
            Ok(styles) => Ok(styles),
            Err(e) => Err(XlsxError::Decode(e)),
        }
    }
}

/// A pool without strings.
fn empty_pool() -> (pool: Vec<String>)
    ensures
        pool.deep_view() == Seq::<Seq<char>>::empty(),
{
    let pool: Vec<String> = Vec::new();
    assert(pool.deep_view() =~= Seq::<Seq<char>>::empty());
    pool
}

} // verus!
