//! The decoder of a worksheet part: one pass over its events that fills the
//! grid, the column and row entries, the merged ranges, the validation
//! rules and the frozen panes of a sheet.

use vstd::prelude::*;
use vstd::string::StringExecFns;
use crate::dict::{inserted, lookup, Entries, TextMap};
use crate::error::{decoded, DecodeError};
use crate::range::{address_offsets, parse_address, valid_address, valid_range, Range, range_first, range_second};
use crate::sheet_laws::{
    all_hold_something, lemma_decoded_cells_hold_something, lemma_decoded_sheet_is_rectangular,
    lemma_decoded_sizes_are_numbers, sizes_are_numbers,
};
use crate::sheet::{
    blank_cell, blank_sheet, is_rectangular, Cell, CellCoords, CellView, ColumnData, ColumnView,
    DataValidation, DataValidationSource, MergedCell, RowData, RowView, SheetData, SheetView,
    SourceView, ValidationView,
};
use crate::text::{
    chars_of, find_char, float_text, is_float_text, number_of, parse_number, position_of,
    same_text, string_of, trim_bounds, trimmed,
};
use crate::xml::{
    attribute, copy_text, count_of, find_attribute, flag_of, ill_sized, own_text, read_attribute,
    read_count, read_flag, read_size, unreadable, value_of, AttributeView, EventReader, EventView,
    XmlAttribute, XmlEvent,
};

verus! {

/// The flag that asks for the text of formulas.
pub const WITH_FORMULAS: u32 = 1;

/// Which element's text the reader is inside of.
#[derive(Clone, Copy, Debug, PartialEq, Eq, Structural)]
pub enum Mode {
    Idle,
    Formula,
    Value,
}

/// A validation rule whose element is still open.
pub struct PendingValidation {
    pub range: Option<String>,
    pub formula: Option<String>,
    /// Whether the reader is inside the first formula of the rule.
    pub inside: bool,
}

/// What a `PendingValidation` holds.
pub struct PendingView {
    pub range: Option<Seq<char>>,
    pub formula: Option<Seq<char>>,
    pub inside: bool,
}

impl DeepView for PendingValidation {
    type V = PendingView;

    open spec fn deep_view(&self) -> PendingView {
        PendingView {
            range: self.range.deep_view(),
            formula: self.formula.deep_view(),
            inside: self.inside,
        }
    }
}

/// The state of the decoder between two events.
pub struct SheetReader {
    /// What was decoded so far.
    pub sheet: SheetData,
    /// One more than the greatest column that a cell address named.
    pub cols_count: u32,
    /// The width of a column that states none, where the sheet overrides it.
    pub default_col_width: Option<String>,
    /// The height of a row that states none, where the sheet overrides it.
    pub default_row_height: Option<String>,
    /// Whether the value of the open cell is an index into the shared strings.
    pub shared: bool,
    /// The cell that is being read.
    pub cell: Cell,
    /// The address that the open cell stated.
    pub cell_name: Option<String>,
    pub mode: Mode,
    /// The hyperlinks recorded so far, from cell address to target.
    pub hyperlinks: TextMap,
    /// The validation rule that is being read.
    pub validation: Option<PendingValidation>,
}

/// What a `SheetReader` holds.
pub struct ReaderView {
    pub sheet: SheetView,
    pub cols_count: u32,
    pub default_col_width: Option<Seq<char>>,
    pub default_row_height: Option<Seq<char>>,
    pub shared: bool,
    pub cell: CellView,
    pub cell_name: Option<Seq<char>>,
    pub mode: Mode,
    pub hyperlinks: Entries,
    pub validation: Option<PendingView>,
}

impl DeepView for SheetReader {
    type V = ReaderView;

    open spec fn deep_view(&self) -> ReaderView {
        ReaderView {
            sheet: self.sheet.deep_view(),
            cols_count: self.cols_count,
            default_col_width: self.default_col_width.deep_view(),
            default_row_height: self.default_row_height.deep_view(),
            shared: self.shared,
            cell: self.cell.deep_view(),
            cell_name: self.cell_name.deep_view(),
            mode: self.mode,
            hyperlinks: self.hyperlinks.deep_view(),
            validation: self.validation.deep_view(),
        }
    }
}

/// What a sheet is decoded against.
pub struct SheetEnv {
    /// The shared strings of the workbook.
    pub pool: Seq<Seq<char>>,
    /// The relationships of the sheet, from identifier to target.
    pub links: Entries,
    /// Whether the text of formulas is asked for.
    pub formulas: bool,
}

/// The state before the first event.
pub open spec fn initial_reader(name: Seq<char>) -> ReaderView {
    ReaderView {
        sheet: blank_sheet(name),
        cols_count: 0,
        default_col_width: None,
        default_row_height: None,
        shared: false,
        cell: blank_cell(),
        cell_name: None,
        mode: Mode::Idle,
        hyperlinks: Seq::empty(),
        validation: None,
    }
}

/// `s`, made at least `n` long with copies of `fill` at its end.
pub open spec fn padded<T>(s: Seq<T>, n: int, fill: T) -> Seq<T> {
    if s.len() >= n {
        s
    } else {
        s + Seq::new((n - s.len()) as nat, |i: int| fill)
    }
}

/// `s`, made exactly `n` long: cut at its end, or padded with copies of `fill`.
pub open spec fn resized<T>(s: Seq<T>, n: int, fill: T) -> Seq<T> {
    if s.len() >= n {
        s.take(n)
    } else {
        padded(s, n, fill)
    }
}

/// What a `sheetFormatPr` tag does: it overrides the sizes of columns and
/// rows that state none. A size that is no number is an error.
pub open spec fn on_format(state: ReaderView, attributes: Seq<AttributeView>, well_formed: bool) -> Result<
    ReaderView,
    DecodeError,
> {
    if !well_formed || unreadable(attributes, "defaultRowHeight"@) || ill_sized(
        attributes,
        "defaultRowHeight"@,
    ) || unreadable(attributes, "defaultColWidth"@) || ill_sized(attributes, "defaultColWidth"@) {
        Err(DecodeError::MalformedXml)
    } else {
        Ok(
            ReaderView {
                default_row_height: match value_of(attributes, "defaultRowHeight"@) {
                    Some(height) => Some(height),
                    None => state.default_row_height,
                },
                default_col_width: match value_of(attributes, "defaultColWidth"@) {
                    Some(width) => Some(width),
                    None => state.default_col_width,
                },
                ..state
            },
        )
    }
}

/// A size that a tag claims as its own: the text of the attribute, or zero
/// where the attribute is absent.
pub open spec fn own_size(attributes: Seq<AttributeView>, key: Seq<char>) -> Seq<char> {
    match value_of(attributes, key) {
        Some(size) => size,
        None => "0"@,
    }
}

/// The column entries after a `col` tag that covers the one-based columns
/// `min` to `max`: the entries reach up to `max`, the columns from `min` on
/// get the entry of the tag, and those before it the default entry.
pub open spec fn with_columns(
    cols: Seq<ColumnView>,
    min: int,
    max: int,
    own: ColumnView,
    gap: ColumnView,
) -> Seq<ColumnView> {
    if cols.len() >= max {
        cols
    } else {
        cols + Seq::new(
            (max - cols.len()) as nat,
            |i: int|
                if cols.len() + i + 1 >= min {
                    own
                } else {
                    gap
                },
        )
    }
}

/// What a `col` tag does.
pub open spec fn on_col(state: ReaderView, attributes: Seq<AttributeView>, well_formed: bool) -> Result<
    ReaderView,
    DecodeError,
> {
    if !well_formed || unreadable(attributes, "width"@) || ill_sized(attributes, "width"@)
        || unreadable(attributes, "min"@) || unreadable(attributes, "max"@) || unreadable(
        attributes,
        "customWidth"@,
    ) || unreadable(attributes, "hidden"@) {
        Err(DecodeError::MalformedXml)
    } else {
        match (count_of(attributes, "min"@), count_of(attributes, "max"@)) {
            (Some(min), Some(max)) => {
                let own = ColumnView {
                    width: if flag_of(attributes, "customWidth"@) == Some(true) {
                        Some(own_size(attributes, "width"@))
                    } else {
                        state.default_col_width
                    },
                    hidden: flag_of(attributes, "hidden"@),
                };
                let gap = ColumnView { width: state.default_col_width, hidden: None };
                Ok(
                    ReaderView {
                        sheet: SheetView {
                            cols: with_columns(state.sheet.cols, min as int, max as int, own, gap),
                            ..state.sheet
                        },
                        ..state
                    },
                )
            },
            _ => Err(DecodeError::MalformedXml),
        }
    }
}

/// What a `row` tag does: the grid and the row entries reach up to the row,
/// rows that were skipped get the default entry, and the row gets its own.
pub open spec fn on_row(state: ReaderView, attributes: Seq<AttributeView>, well_formed: bool) -> Result<
    ReaderView,
    DecodeError,
> {
    if !well_formed || unreadable(attributes, "ht"@) || ill_sized(attributes, "ht"@) || unreadable(
        attributes,
        "customHeight"@,
    ) || unreadable(attributes, "r"@) || unreadable(attributes, "hidden"@) {
        Err(DecodeError::MalformedXml)
    } else {
        match count_of(attributes, "r"@) {
            Some(index) if index > 0 => {
                let own = RowView {
                    height: if flag_of(attributes, "customHeight"@) == Some(true) {
                        Some(own_size(attributes, "ht"@))
                    } else {
                        state.default_row_height
                    },
                    hidden: flag_of(attributes, "hidden"@),
                };
                let gap = RowView { height: state.default_row_height, hidden: None };
                Ok(
                    ReaderView {
                        sheet: SheetView {
                            cells: padded(state.sheet.cells, index as int, Seq::empty()),
                            rows: padded(state.sheet.rows, index - 1, gap).push(own),
                            ..state.sheet
                        },
                        ..state
                    },
                )
            },
            _ => Err(DecodeError::MalformedXml),
        }
    }
}

/// The grid with its last row replaced.
pub open spec fn with_last_row(
    cells: Seq<Seq<Option<CellView>>>,
    row: Seq<Option<CellView>>,
) -> Seq<Seq<Option<CellView>>> {
    cells.update(cells.len() - 1, row)
}

/// What the start tag of a cell does: it notes the style and whether the
/// value is a shared string, and where the cell states its address, pads
/// the last row with empty slots up to the column of the address.
pub open spec fn on_cell_start(
    state: ReaderView,
    attributes: Seq<AttributeView>,
    well_formed: bool,
) -> Result<ReaderView, DecodeError> {
    if !well_formed || unreadable(attributes, "t"@) || unreadable(attributes, "s"@) || unreadable(
        attributes,
        "r"@,
    ) {
        Err(DecodeError::MalformedXml)
    } else {
        let style = match value_of(attributes, "s"@) {
            Some(text) => number_of(text),
            None => Some(state.cell.s),
        };
        match style {
            None => Err(DecodeError::MalformedXml),
            Some(s) => {
                let noted = ReaderView {
                    shared: value_of(attributes, "t"@) == Some("s"@),
                    cell: CellView { s, ..state.cell },
                    ..state
                };
                match value_of(attributes, "r"@) {
                    None => Ok(noted),
                    Some(name) => if !valid_address(name) || state.sheet.cells.len() == 0 {
                        Err(DecodeError::MalformedXml)
                    } else {
                        let column = address_offsets(name).0;
                        Ok(
                            ReaderView {
                                sheet: SheetView {
                                    cells: with_last_row(
                                        state.sheet.cells,
                                        padded(state.sheet.cells.last(), column, None),
                                    ),
                                    ..state.sheet
                                },
                                cols_count: if column + 1 > state.cols_count {
                                    (column + 1) as u32
                                } else {
                                    state.cols_count
                                },
                                cell_name: Some(name),
                                ..noted
                            },
                        )
                    },
                }
            },
        }
    }
}

/// The hyperlink recorded for the open cell.
pub open spec fn cell_link(state: ReaderView) -> Option<Seq<char>> {
    match state.cell_name {
        Some(name) => lookup(state.hyperlinks, name),
        None => None,
    }
}

/// Whether the open cell holds anything: a value, a style other than the
/// default, or a hyperlink.
pub open spec fn cell_is_kept(state: ReaderView) -> bool {
    state.cell.v is Some || state.cell.s > 0 || cell_link(state) is Some
}

/// What the end tag of a cell does: a cell that holds something goes to the
/// end of the last row, a cell that holds nothing is dropped.
pub open spec fn on_cell_end(state: ReaderView) -> Result<ReaderView, DecodeError> {
    let closed = ReaderView { cell: blank_cell(), cell_name: None, ..state };
    if !cell_is_kept(state) {
        Ok(closed)
    } else if state.sheet.cells.len() == 0 {
        Err(DecodeError::MalformedXml)
    } else {
        let cell = CellView { hyperlink: cell_link(state), ..state.cell };
        Ok(
            ReaderView {
                sheet: SheetView {
                    cells: with_last_row(
                        state.sheet.cells,
                        state.sheet.cells.last().push(Some(cell)),
                    ),
                    ..state.sheet
                },
                ..closed
            },
        )
    }
}

/// The value that the text of a `v` element gives a cell that has none:
/// the text itself, or the shared string it is the index of. An empty
/// shared string gives no value.
pub open spec fn cell_value(text: Seq<char>, shared: bool, pool: Seq<Seq<char>>) -> Result<
    Option<Seq<char>>,
    DecodeError,
> {
    if !shared {
        Ok(Some(text))
    } else {
        match number_of(text) {
            None => Err(DecodeError::MalformedXml),
            Some(index) => if index >= pool.len() {
                Err(DecodeError::UnresolvedReference)
            } else if pool[index as int].len() > 0 {
                Ok(Some(pool[index as int]))
            } else {
                Ok(None)
            },
        }
    }
}

/// What character data does: inside a formula it becomes the value of the
/// open cell behind `=`, where formulas are asked for; inside a value it
/// becomes the value of the open cell, where the cell has none yet.
pub open spec fn on_text(
    state: ReaderView,
    text: Option<Seq<char>>,
    pool: Seq<Seq<char>>,
    formulas: bool,
) -> Result<ReaderView, DecodeError> {
    match state.mode {
        Mode::Idle => Ok(state),
        Mode::Formula => if !formulas {
            Ok(state)
        } else {
            match text {
                None => Err(DecodeError::MalformedXml),
                Some(t) => Ok(
                    ReaderView { cell: CellView { v: Some("="@ + t), ..state.cell }, ..state },
                ),
            }
        },
        Mode::Value => if state.cell.v is Some {
            Ok(state)
        } else {
            match text {
                None => Err(DecodeError::MalformedXml),
                Some(t) => match cell_value(t, state.shared, pool) {
                    Err(e) => Err(e),
                    Ok(v) => Ok(ReaderView { cell: CellView { v, ..state.cell }, ..state }),
                },
            }
        },
    }
}

/// What a `mergeCell` tag does.
pub open spec fn on_merge(state: ReaderView, attributes: Seq<AttributeView>, well_formed: bool) -> Result<
    ReaderView,
    DecodeError,
> {
    if !well_formed || unreadable(attributes, "ref"@) {
        Err(DecodeError::MalformedXml)
    } else {
        match value_of(attributes, "ref"@) {
            None => Ok(state),
            Some(range) => if !valid_range(range) {
                Err(DecodeError::MalformedXml)
            } else {
                let first = address_offsets(range_first(range));
                let last = address_offsets(range_second(range));
                let merged = MergedCell {
                    from: CellCoords { column: first.0 as u32, row: first.1 as u32 },
                    to: CellCoords { column: last.0 as u32, row: last.1 as u32 },
                };
                Ok(
                    ReaderView {
                        sheet: SheetView {
                            merged: state.sheet.merged.push(merged),
                            ..state.sheet
                        },
                        ..state
                    },
                )
            },
        }
    }
}

/// The split that a `pane` tag states for one direction: the text of the
/// attribute where it is a number, else the split noted before.
pub open spec fn split_of(
    attributes: Seq<AttributeView>,
    key: Seq<char>,
    before: Option<Seq<char>>,
) -> Option<Seq<char>> {
    match value_of(attributes, key) {
        Some(split) => if is_float_text(split) {
            Some(split)
        } else {
            before
        },
        None => before,
    }
}

/// What a `pane` tag does: it states where the sheet is split.
pub open spec fn on_pane(state: ReaderView, attributes: Seq<AttributeView>) -> ReaderView {
    ReaderView {
        sheet: SheetView {
            frozen_cols: split_of(attributes, "xSplit"@, state.sheet.frozen_cols),
            frozen_rows: split_of(attributes, "ySplit"@, state.sheet.frozen_rows),
            ..state.sheet
        },
        ..state
    }
}

/// What a `hyperlink` tag does: where the relationships of the sheet know
/// its identifier, the target is recorded for the cell.
pub open spec fn on_hyperlink(
    state: ReaderView,
    attributes: Seq<AttributeView>,
    well_formed: bool,
    links: Entries,
) -> Result<ReaderView, DecodeError> {
    if !well_formed || unreadable(attributes, "ref"@) || unreadable(attributes, "r:id"@) {
        Err(DecodeError::MalformedXml)
    } else {
        match (value_of(attributes, "ref"@), value_of(attributes, "r:id"@)) {
            (Some(cell), Some(id)) => match lookup(links, id) {
                Some(link) => Ok(
                    ReaderView { hyperlinks: inserted(state.hyperlinks, cell, link), ..state },
                ),
                None => Ok(state),
            },
            _ => Ok(state),
        }
    }
}

/// What a `dataValidation` start tag does: the rule is open until its end tag.
pub open spec fn on_validation(state: ReaderView, attributes: Seq<AttributeView>) -> Result<
    ReaderView,
    DecodeError,
> {
    if unreadable(attributes, "sqref"@) {
        Err(DecodeError::MalformedXml)
    } else {
        Ok(
            ReaderView {
                validation: Some(
                    PendingView {
                        range: value_of(attributes, "sqref"@),
                        formula: None,
                        inside: false,
                    },
                ),
                ..state
            },
        )
    }
}

/// The options that a quoted list holds: the pieces between its commas,
/// each without the white space around it.
pub open spec fn list_items(s: Seq<char>) -> Seq<Seq<char>>
    decreases s.len(),
{
    let k = position_of(s, ',') as int;
    if k >= s.len() {
        seq![trimmed(s)]
    } else {
        seq![trimmed(s.take(k))] + list_items(s.skip(k + 1))
    }
}

/// The source that the formula of a validation rule states: a list where
/// the formula stands between double quotes, a reference otherwise. A
/// formula that is one double quote states none.
pub open spec fn validation_source(formula: Seq<char>) -> Option<SourceView> {
    if formula.len() > 0 && formula[0] == '"' && formula.last() == '"' {
        if formula.len() < 2 {
            None
        } else {
            Some(SourceView::List(list_items(formula.subrange(1, formula.len() - 1))))
        }
    } else {
        Some(SourceView::RangeReference(formula))
    }
}

/// What an event does while a validation rule is open: the text inside
/// the first formula of the rule becomes its formula, and the end tag of
/// the rule closes it. A rule with both a range and a formula is kept. Any
/// other event is passed over.
pub open spec fn in_validation(state: ReaderView, pending: PendingView, event: EventView) -> Result<
    ReaderView,
    DecodeError,
> {
    match event {
        EventView::Start { name, attributes, well_formed } => if name == "formula1"@ {
            Ok(ReaderView { validation: Some(PendingView { inside: true, ..pending }), ..state })
        } else {
            Ok(state)
        },
        EventView::Text { text } => if !pending.inside {
            Ok(state)
        } else {
            match text {
                None => Err(DecodeError::MalformedXml),
                Some(t) => Ok(
                    ReaderView {
                        validation: Some(PendingView { formula: Some(t), ..pending }),
                        ..state
                    },
                ),
            }
        },
        EventView::End { name } => if name == "formula1"@ {
            Ok(ReaderView { validation: Some(PendingView { inside: false, ..pending }), ..state })
        } else if name == "dataValidation"@ {
            match (pending.range, pending.formula) {
                (Some(range), Some(formula)) => match validation_source(formula) {
                    None => Err(DecodeError::MalformedXml),
                    Some(source) => Ok(
                        ReaderView {
                            sheet: SheetView {
                                validations: state.sheet.validations.push(
                                    ValidationView { range, source },
                                ),
                                ..state.sheet
                            },
                            validation: None,
                            ..state
                        },
                    ),
                },
                _ => Ok(ReaderView { validation: None, ..state }),
            }
        } else {
            Ok(state)
        },
        EventView::Eof => Err(DecodeError::MalformedXml),
        EventView::Failed => Err(DecodeError::MalformedXml),
        EventView::Other => Ok(state),
    }
}

/// Whether a row holds no cell: every slot it has is empty.
pub open spec fn is_blank_row(row: Seq<Option<CellView>>) -> bool {
    forall|c: int| 0 <= c < row.len() ==> (#[trigger] row[c]) is None
}

/// How many rows are left once the rows without a cell at the end of the
/// grid are dropped.
pub open spec fn kept_rows(cells: Seq<Seq<Option<CellView>>>) -> nat
    decreases cells.len(),
{
    if cells.len() > 0 && is_blank_row(cells.last()) {
        kept_rows(cells.drop_last())
    } else {
        cells.len()
    }
}

/// Whether none of the first `rows` rows has more than `width` slots.
pub open spec fn fits(cells: Seq<Seq<Option<CellView>>>, rows: int, width: int) -> bool {
    forall|r: int| 0 <= r < rows && r < cells.len() ==> (#[trigger] cells[r]).len() <= width
}

/// The grid with a hyperlink attached to the cell at an address. Nothing
/// changes where the address is not well formed, lies outside the grid, or
/// names a slot without a cell.
pub open spec fn attached(
    grid: Seq<Seq<Option<CellView>>>,
    name: Seq<char>,
    link: Seq<char>,
) -> Seq<Seq<Option<CellView>>> {
    if !valid_address(name) {
        grid
    } else {
        let column = address_offsets(name).0;
        let row = address_offsets(name).1;
        if row < grid.len() && column < grid[row].len() && grid[row][column] is Some {
            grid.update(
                row,
                grid[row].update(
                    column,
                    Some(CellView { hyperlink: Some(link), ..grid[row][column]->0 }),
                ),
            )
        } else {
            grid
        }
    }
}

/// The grid with every recorded hyperlink attached, in the order recorded.
pub open spec fn attach_all(grid: Seq<Seq<Option<CellView>>>, links: Entries) -> Seq<
    Seq<Option<CellView>>,
>
    decreases links.len(),
{
    if links.len() == 0 {
        grid
    } else {
        attached(attach_all(grid, links.drop_last()), links.last().0, links.last().1)
    }
}

/// The rows that are kept, each padded with empty slots to the given width.
pub open spec fn squared(cells: Seq<Seq<Option<CellView>>>, width: int) -> Seq<
    Seq<Option<CellView>>,
> {
    Seq::new(kept_rows(cells), |r: int| padded(cells[r], width, None))
}

/// What the end tag of the worksheet does: the rows without a cell at the
/// end of the grid are dropped, every other row is padded to the number of
/// columns that the cell addresses named, the row and column entries are
/// cut or padded to the size of the grid, and the hyperlinks are attached.
/// A row with more slots than that number of columns is an error.
pub open spec fn finish(state: ReaderView) -> Result<SheetView, DecodeError> {
    let rows = kept_rows(state.sheet.cells) as int;
    let width = state.cols_count as int;
    if !fits(state.sheet.cells, rows, width) {
        Err(DecodeError::MalformedXml)
    } else {
        Ok(
            SheetView {
                cells: attach_all(squared(state.sheet.cells, width), state.hyperlinks),
                rows: resized(
                    state.sheet.rows,
                    rows,
                    RowView { height: state.default_row_height, hidden: None },
                ),
                cols: resized(
                    state.sheet.cols,
                    width,
                    ColumnView { width: state.default_col_width, hidden: None },
                ),
                ..state.sheet
            },
        )
    }
}

/// What one event leads to.
pub enum Step {
    /// The decoder goes on in a new state.
    Continue(ReaderView),
    /// The worksheet has ended; the sheet it holds.
    Done(SheetView),
    /// The part cannot be decoded.
    Fail(DecodeError),
}

/// The step that the outcome of a tag or of text amounts to.
pub open spec fn advance(outcome: Result<ReaderView, DecodeError>) -> Step {
    match outcome {
        Ok(state) => Step::Continue(state),
        Err(e) => Step::Fail(e),
    }
}

/// What a start tag does outside a validation rule.
pub open spec fn on_start(
    state: ReaderView,
    name: Seq<char>,
    attributes: Seq<AttributeView>,
    well_formed: bool,
    links: Entries,
) -> Result<ReaderView, DecodeError> {
    if name == "sheetFormatPr"@ {
        on_format(state, attributes, well_formed)
    } else if name == "col"@ {
        on_col(state, attributes, well_formed)
    } else if name == "row"@ {
        on_row(state, attributes, well_formed)
    } else if name == "c"@ {
        on_cell_start(state, attributes, well_formed)
    } else if name == "f"@ {
        Ok(ReaderView { mode: Mode::Formula, ..state })
    } else if name == "v"@ {
        Ok(ReaderView { mode: Mode::Value, ..state })
    } else if name == "mergeCell"@ {
        on_merge(state, attributes, well_formed)
    } else if name == "pane"@ {
        Ok(on_pane(state, attributes))
    } else if name == "dataValidation"@ {
        on_validation(state, attributes)
    } else if name == "hyperlink"@ {
        on_hyperlink(state, attributes, well_formed, links)
    } else {
        Ok(state)
    }
}

/// What one event does to the decoder.
pub open spec fn step(state: ReaderView, event: EventView, env: SheetEnv) -> Step {
    match state.validation {
        Some(pending) => advance(in_validation(state, pending, event)),
        None => match event {
            EventView::Start { name, attributes, well_formed } => advance(
                on_start(state, name, attributes, well_formed, env.links),
            ),
            EventView::End { name } => if name == "c"@ {
                advance(on_cell_end(state))
            } else if name == "f"@ || name == "v"@ {
                Step::Continue(ReaderView { mode: Mode::Idle, ..state })
            } else if name == "worksheet"@ {
                match finish(state) {
                    Ok(sheet) => Step::Done(sheet),
                    Err(e) => Step::Fail(e),
                }
            } else {
                Step::Continue(state)
            },
            EventView::Text { text } => advance(on_text(state, text, env.pool, env.formulas)),
            EventView::Eof => Step::Fail(DecodeError::MalformedXml),
            EventView::Failed => Step::Fail(DecodeError::MalformedXml),
            EventView::Other => Step::Continue(state),
        },
    }
}

/// What the events of a worksheet part decode to, from a given state on:
/// the sheet at the end tag of the worksheet, or the first error. Events
/// that end before that tag are an error.
pub open spec fn sheet_from(state: ReaderView, events: Seq<EventView>, env: SheetEnv) -> Result<
    SheetView,
    DecodeError,
>
    decreases events.len(),
{
    if events.len() == 0 {
        Err(DecodeError::MalformedXml)
    } else {
        match step(state, events[0], env) {
            Step::Continue(next) => sheet_from(next, events.drop_first(), env),
            Step::Done(sheet) => Ok(sheet),
            Step::Fail(e) => Err(e),
        }
    }
}

/// What the events of a worksheet part decode to.
pub open spec fn sheet_of(name: Seq<char>, events: Seq<EventView>, env: SheetEnv) -> Result<
    SheetView,
    DecodeError,
> {
    sheet_from(initial_reader(name), events, env)
}

/// Pads a row of the grid with empty slots up to `n` slots.
fn pad_slots(row: &mut Vec<Option<Cell>>, n: usize)
    ensures
        final(row).deep_view() == padded(old(row).deep_view(), n as int, None),
{
    let ghost before = row.deep_view();
    while row.len() < n
        invariant
            before.len() <= row@.len(),
            before.len() < n ==> row@.len() <= n,
            before.len() >= n ==> row@.len() == before.len(),
            row.deep_view() == before + Seq::new(
                (row@.len() - before.len()) as nat,
                |i: int| None::<CellView>,
            ),
        decreases n - row@.len(),
    {
        let ghost prior = row.deep_view();
        row.push(None);
        assert(row.deep_view() =~= prior.push(None));
        assert(row.deep_view() =~= before + Seq::new(
            (row@.len() - before.len()) as nat,
            |i: int| None::<CellView>,
        ));
    }
    assert(row.deep_view() =~= padded(before, n as int, None));
}

/// Pads the grid with rows without slots up to `n` rows.
fn pad_grid(cells: &mut Vec<Vec<Option<Cell>>>, n: usize)
    ensures
        final(cells).deep_view() == padded(old(cells).deep_view(), n as int, Seq::empty()),
{
    let ghost before = cells.deep_view();
    while cells.len() < n
        invariant
            before.len() <= cells@.len(),
            before.len() < n ==> cells@.len() <= n,
            before.len() >= n ==> cells@.len() == before.len(),
            cells.deep_view() == before + Seq::new(
                (cells@.len() - before.len()) as nat,
                |i: int| Seq::<Option<CellView>>::empty(),
            ),
        decreases n - cells@.len(),
    {
        let ghost prior = cells.deep_view();
        let empty: Vec<Option<Cell>> = Vec::new();
        assert(empty.deep_view() =~= Seq::<Option<CellView>>::empty());
        cells.push(empty);
        assert(cells.deep_view() =~= prior.push(Seq::<Option<CellView>>::empty()));
        assert(cells.deep_view() =~= before + Seq::new(
            (cells@.len() - before.len()) as nat,
            |i: int| Seq::<Option<CellView>>::empty(),
        ));
    }
    assert(cells.deep_view() =~= padded(before, n as int, Seq::empty()));
}

/// Pads the row entries with default entries up to `n` entries.
fn pad_rows(rows: &mut Vec<RowData>, n: usize, height: &Option<String>)
    ensures
        final(rows).deep_view() == padded(
            old(rows).deep_view(),
            n as int,
            RowView { height: height.deep_view(), hidden: None },
        ),
{
    let ghost before = rows.deep_view();
    let ghost gap = RowView { height: height.deep_view(), hidden: None };
    while rows.len() < n
        invariant
            before.len() <= rows@.len(),
            before.len() < n ==> rows@.len() <= n,
            before.len() >= n ==> rows@.len() == before.len(),
            gap == (RowView { height: height.deep_view(), hidden: None }),
            rows.deep_view() == before + Seq::new(
                (rows@.len() - before.len()) as nat,
                |i: int| gap,
            ),
        decreases n - rows@.len(),
    {
        let ghost prior = rows.deep_view();
        rows.push(RowData { height: copy_text(height), hidden: None });
        assert(rows.deep_view() =~= prior.push(gap));
        assert(rows.deep_view() =~= before + Seq::new(
            (rows@.len() - before.len()) as nat,
            |i: int| gap,
        ));
    }
    assert(rows.deep_view() =~= padded(before, n as int, gap));
}

/// Pads the column entries with default entries up to `n` entries.
fn pad_cols(cols: &mut Vec<ColumnData>, n: usize, width: &Option<String>)
    ensures
        final(cols).deep_view() == padded(
            old(cols).deep_view(),
            n as int,
            ColumnView { width: width.deep_view(), hidden: None },
        ),
{
    let ghost before = cols.deep_view();
    let ghost gap = ColumnView { width: width.deep_view(), hidden: None };
    while cols.len() < n
        invariant
            before.len() <= cols@.len(),
            before.len() < n ==> cols@.len() <= n,
            before.len() >= n ==> cols@.len() == before.len(),
            gap == (ColumnView { width: width.deep_view(), hidden: None }),
            cols.deep_view() == before + Seq::new(
                (cols@.len() - before.len()) as nat,
                |i: int| gap,
            ),
        decreases n - cols@.len(),
    {
        let ghost prior = cols.deep_view();
        cols.push(ColumnData { width: copy_text(width), hidden: None });
        assert(cols.deep_view() =~= prior.push(gap));
        assert(cols.deep_view() =~= before + Seq::new(
            (cols@.len() - before.len()) as nat,
            |i: int| gap,
        ));
    }
    assert(cols.deep_view() =~= padded(before, n as int, gap));
}

/// Extends the column entries as a `col` tag asks.
fn extend_columns(
    cols: &mut Vec<ColumnData>,
    min: u32,
    max: u32,
    own: &ColumnData,
    default_width: &Option<String>,
)
    ensures
        final(cols).deep_view() == with_columns(
            old(cols).deep_view(),
            min as int,
            max as int,
            own.deep_view(),
            ColumnView { width: default_width.deep_view(), hidden: None },
        ),
{
    let ghost before = cols.deep_view();
    let ghost gap = ColumnView { width: default_width.deep_view(), hidden: None };
    let ghost entry = |i: int|
        if before.len() + i + 1 >= min {
            own.deep_view()
        } else {
            gap
        };
    while cols.len() < max as usize
        invariant
            before.len() <= cols@.len(),
            before.len() < max ==> cols@.len() <= max,
            before.len() >= max ==> cols@.len() == before.len(),
            gap == (ColumnView { width: default_width.deep_view(), hidden: None }),
            entry == (|i: int|
                if before.len() + i + 1 >= min {
                    own.deep_view()
                } else {
                    gap
                }),
            cols.deep_view() == before + Seq::new((cols@.len() - before.len()) as nat, entry),
        decreases max - cols@.len(),
    {
        let ghost prior = cols.deep_view();
        let column = if cols.len() + 1 >= min as usize {
            ColumnData { width: copy_text(&own.width), hidden: own.hidden }
        } else {
            ColumnData { width: copy_text(default_width), hidden: None }
        };
        cols.push(column);
        assert(cols.deep_view() =~= prior.push(entry(prior.len() - before.len())));
        assert(cols.deep_view() =~= before + Seq::new((cols@.len() - before.len()) as nat, entry));
    }
    assert(cols.deep_view() =~= with_columns(
        before,
        min as int,
        max as int,
        own.deep_view(),
        gap,
    ));
}

/// Notes the split that a `pane` tag states for one direction.
fn read_split(split: &mut Option<String>, attributes: &Vec<XmlAttribute>, key: &str)
    ensures
        final(split).deep_view() == split_of(attributes.deep_view(), key@, old(split).deep_view()),
{
    if let Some(a) = find_attribute(attributes, key) {
        if let Some(text) = &a.value {
            if float_text(text.as_str()) {
                *split = Some(text.clone());
            }
        }
    }
}

/// How the state after a tag or after text relates to the state before it.
pub open spec fn follows(
    outcome: Result<(), DecodeError>,
    after: ReaderView,
    expected: Result<ReaderView, DecodeError>,
) -> bool {
    match expected {
        Ok(state) => outcome is Ok && after == state,
        Err(e) => outcome == Err::<(), DecodeError>(e),
    }
}

impl SheetReader {
    /// The decoder of a sheet of the given name, before the first event.
    pub fn new(name: String) -> (reader: SheetReader)
        ensures
            reader.deep_view() == initial_reader(name@),
    {
        SheetReader {
            sheet: SheetData::new(name),
            cols_count: 0,
            default_col_width: None,
            default_row_height: None,
            shared: false,
            cell: Cell::new(),
            cell_name: None,
            mode: Mode::Idle,
            hyperlinks: TextMap::new(),
            validation: None,
        }
    }

    fn format_tag(&mut self, attributes: &Vec<XmlAttribute>, well_formed: bool) -> (outcome: Result<
        (),
        DecodeError,
    >)
        ensures
            follows(
                outcome,
                final(self).deep_view(),
                on_format(old(self).deep_view(), attributes.deep_view(), well_formed),
            ),
    {
        let height = read_size(attributes, well_formed, "defaultRowHeight")?;
        let width = read_size(attributes, well_formed, "defaultColWidth")?;
        if let Some(height) = height {
            self.default_row_height = Some(height.clone());
        }
        if let Some(width) = width {
            self.default_col_width = Some(width.clone());
        }
        Ok(())
    }

    fn col_tag(&mut self, attributes: &Vec<XmlAttribute>, well_formed: bool) -> (outcome: Result<
        (),
        DecodeError,
    >)
        ensures
            follows(
                outcome,
                final(self).deep_view(),
                on_col(old(self).deep_view(), attributes.deep_view(), well_formed),
            ),
    {
        let width = read_size(attributes, well_formed, "width")?;
        let custom = read_flag(attributes, well_formed, "customWidth")?;
        let hidden = read_flag(attributes, well_formed, "hidden")?;
        let min = read_count(attributes, well_formed, "min")?;
        let max = read_count(attributes, well_formed, "max")?;
        let own_width = match custom {
            Some(true) => match width {
                Some(w) => Some(w.clone()),
                None => Some(String::from_str("0")),
            },
            _ => copy_text(&self.default_col_width),
        };
        let own = ColumnData { width: own_width, hidden };
        extend_columns(&mut self.sheet.cols, min, max, &own, &self.default_col_width);
        Ok(())
    }

    fn row_tag(&mut self, attributes: &Vec<XmlAttribute>, well_formed: bool) -> (outcome: Result<
        (),
        DecodeError,
    >)
        ensures
            follows(
                outcome,
                final(self).deep_view(),
                on_row(old(self).deep_view(), attributes.deep_view(), well_formed),
            ),
    {
        let height = read_size(attributes, well_formed, "ht")?;
        let custom = read_flag(attributes, well_formed, "customHeight")?;
        let hidden = read_flag(attributes, well_formed, "hidden")?;
        let index = read_count(attributes, well_formed, "r")?;
        if index == 0 {
            return Err(DecodeError::MalformedXml);
        }
        let own_height = match custom {
            Some(true) => match height {
                Some(h) => Some(h.clone()),
                None => Some(String::from_str("0")),
            },
            _ => copy_text(&self.default_row_height),
        };
        pad_grid(&mut self.sheet.cells, index as usize);
        pad_rows(&mut self.sheet.rows, (index - 1) as usize, &self.default_row_height);
        let ghost prior = self.sheet.rows.deep_view();
        let own = RowData { height: own_height, hidden };
        self.sheet.rows.push(own);
        assert(self.sheet.rows.deep_view() =~= prior.push(own.deep_view()));
        Ok(())
    }

    fn cell_start_tag(&mut self, attributes: &Vec<XmlAttribute>, well_formed: bool) -> (outcome:
        Result<(), DecodeError>)
        ensures
            follows(
                outcome,
                final(self).deep_view(),
                on_cell_start(old(self).deep_view(), attributes.deep_view(), well_formed),
            ),
    {
        let kind = read_attribute(attributes, well_formed, "t")?;
        let style = read_attribute(attributes, well_formed, "s")?;
        let name = read_attribute(attributes, well_formed, "r")?;
        let s = match style {
            Some(text) => match parse_number(text.as_str()) {
                Some(s) => s,
                None => {
                    return Err(DecodeError::MalformedXml);
                },
            },
            None => self.cell.s,
        };
        self.shared = match kind {
            Some(kind) => same_text(kind.as_str(), "s"),
            None => false,
        };
        self.cell.s = s;
        let name = match name {
            Some(name) => name,
            None => {
                return Ok(());
            },
        };
        let chars = chars_of(name.as_str());
        assert(chars@.subrange(0, chars@.len() as int) == chars@);
        let column = match parse_address(&chars, 0, chars.len()) {
            Some(offsets) => offsets.0,
            None => {
                return Err(DecodeError::MalformedXml);
            },
        };
        let rows = self.sheet.cells.len();
        if rows == 0 {
            return Err(DecodeError::MalformedXml);
        }
        let ghost before = self.sheet.cells.deep_view();
        pad_slots(&mut self.sheet.cells[rows - 1], column as usize);
        assert(self.sheet.cells.deep_view() =~= with_last_row(
            before,
            padded(before.last(), column as int, None),
        ));
        if column + 1 > self.cols_count {
            self.cols_count = column + 1;
        }
        self.cell_name = Some(name.clone());
        Ok(())
    }

    fn cell_end_tag(&mut self) -> (outcome: Result<(), DecodeError>)
        ensures
            follows(outcome, final(self).deep_view(), on_cell_end(old(self).deep_view())),
    {
        let link = match &self.cell_name {
            Some(name) => own_text(self.hyperlinks.get(name.as_str())),
            None => None,
        };
        let kept = self.cell.v.is_some() || self.cell.s > 0 || link.is_some();
        let mut cell = Cell::new();
        std::mem::swap(&mut cell, &mut self.cell);
        self.cell_name = None;
        if !kept {
            return Ok(());
        }
        let rows = self.sheet.cells.len();
        if rows == 0 {
            return Err(DecodeError::MalformedXml);
        }
        cell.hyperlink = link;
        let ghost before = self.sheet.cells.deep_view();
        self.sheet.cells[rows - 1].push(Some(cell));
        assert(self.sheet.cells@[rows - 1].deep_view() =~= before.last().push(
            Some(cell.deep_view()),
        ));
        assert(self.sheet.cells.deep_view() =~= with_last_row(
            before,
            before.last().push(Some(cell.deep_view())),
        ));
        Ok(())
    }

    fn text(&mut self, text: &Option<String>, pool: &Vec<String>, flags: u32) -> (outcome: Result<
        (),
        DecodeError,
    >)
        ensures
            follows(
                outcome,
                final(self).deep_view(),
                on_text(
                    old(self).deep_view(),
                    text.deep_view(),
                    pool.deep_view(),
                    flags & WITH_FORMULAS > 0,
                ),
            ),
    {
        match self.mode {
            Mode::Idle => Ok(()),
            Mode::Formula => {
                if flags & WITH_FORMULAS > 0 {
                    match text {
                        None => Err(DecodeError::MalformedXml),
                        Some(t) => {
                            let mut value = String::from_str("=");
                            value.append(t.as_str());
                            self.cell.v = Some(value);
                            Ok(())
                        },
                    }
                } else {
                    Ok(())
                }
            },
            Mode::Value => {
                if self.cell.v.is_some() {
                    return Ok(());
                }
                let t = match text {
                    None => {
                        return Err(DecodeError::MalformedXml);
                    },
                    Some(t) => t,
                };
                if !self.shared {
                    self.cell.v = Some(t.clone());
                    return Ok(());
                }
                let index = match parse_number(t.as_str()) {
                    None => {
                        return Err(DecodeError::MalformedXml);
                    },
                    Some(index) => index as usize,
                };
                if index >= pool.len() {
                    return Err(DecodeError::UnresolvedReference);
                }
                assert(pool.deep_view()[index as int] == pool@[index as int]@);
                if !pool[index].as_str().is_empty() {
                    self.cell.v = Some(pool[index].clone());
                }
                Ok(())
            },
        }
    }

    fn merge_tag(&mut self, attributes: &Vec<XmlAttribute>, well_formed: bool) -> (outcome: Result<
        (),
        DecodeError,
    >)
        ensures
            follows(
                outcome,
                final(self).deep_view(),
                on_merge(old(self).deep_view(), attributes.deep_view(), well_formed),
            ),
    {
        let text = match read_attribute(attributes, well_formed, "ref")? {
            Some(text) => text,
            None => {
                return Ok(());
            },
        };
        let range = match Range::parse(text.as_str()) {
            Some(range) => range,
            None => {
                return Err(DecodeError::MalformedXml);
            },
        };
        let merged = MergedCell {
            from: CellCoords { column: range.first.0, row: range.first.1 },
            to: CellCoords { column: range.last.0, row: range.last.1 },
        };
        let ghost prior = self.sheet.merged.deep_view();
        self.sheet.merged.push(merged);
        assert(self.sheet.merged.deep_view() =~= prior.push(merged));
        Ok(())
    }

    fn pane_tag(&mut self, attributes: &Vec<XmlAttribute>)
        ensures
            final(self).deep_view() == on_pane(old(self).deep_view(), attributes.deep_view()),
    {
        read_split(&mut self.sheet.frozen_cols, attributes, "xSplit");
        read_split(&mut self.sheet.frozen_rows, attributes, "ySplit");
    }

    fn hyperlink_tag(
        &mut self,
        attributes: &Vec<XmlAttribute>,
        well_formed: bool,
        links: &TextMap,
    ) -> (outcome: Result<(), DecodeError>)
        ensures
            follows(
                outcome,
                final(self).deep_view(),
                on_hyperlink(
                    old(self).deep_view(),
                    attributes.deep_view(),
                    well_formed,
                    links.deep_view(),
                ),
            ),
    {
        let cell = read_attribute(attributes, well_formed, "ref")?;
        let id = read_attribute(attributes, well_formed, "r:id")?;
        if let (Some(cell), Some(id)) = (cell, id) {
            if let Some(link) = links.get(id.as_str()) {
                self.hyperlinks.insert(cell.clone(), link.clone());
            }
        }
        Ok(())
    }

    fn validation_tag(&mut self, attributes: &Vec<XmlAttribute>) -> (outcome: Result<
        (),
        DecodeError,
    >)
        ensures
            follows(
                outcome,
                final(self).deep_view(),
                on_validation(old(self).deep_view(), attributes.deep_view()),
            ),
    {
        let range = match find_attribute(attributes, "sqref") {
            Some(a) => match &a.value {
                Some(range) => Some(range.clone()),
                None => {
                    return Err(DecodeError::MalformedXml);
                },
            },
            None => None,
        };
        self.validation = Some(PendingValidation { range, formula: None, inside: false });
        Ok(())
    }
}

/// The options between the commas of `chars[from..to]`.
fn read_items(chars: &Vec<char>, from: usize, to: usize) -> (items: Vec<String>)
    requires
        from <= to <= chars@.len(),
    ensures
        items.deep_view() == list_items(chars@.subrange(from as int, to as int)),
{
    let ghost whole = chars@.subrange(from as int, to as int);
    let mut items: Vec<String> = Vec::new();
    let mut at: usize = from;
    let mut done = false;
    assert(items.deep_view() + list_items(whole) =~= list_items(whole));
    while !done
        invariant
            from <= at <= to <= chars@.len(),
            whole == chars@.subrange(from as int, to as int),
            !done ==> list_items(whole) == items.deep_view() + list_items(
                chars@.subrange(at as int, to as int),
            ),
            done ==> list_items(whole) == items.deep_view(),
        decreases
                to - at + (if done {
                    0int
                } else {
                    1int
                }),
    {
        let ghost rest = chars@.subrange(at as int, to as int);
        let ghost prior = items.deep_view();
        let comma = find_char(chars, at, to, ',');
        let (a, b) = trim_bounds(chars, at, comma);
        let item = string_of(chars, a, b);
        items.push(item);
        assert(items.deep_view() =~= prior.push(item@));
        if comma == to {
            assert(rest.take(rest.len() as int) == rest);
            assert(prior + seq![trimmed(rest)] =~= prior.push(trimmed(rest)));
            done = true;
        } else {
            assert(rest.take(comma - at) == chars@.subrange(at as int, comma as int));
            assert(rest.skip(comma - at + 1) == chars@.subrange(comma + 1, to as int));
            assert(prior + (seq![item@] + list_items(rest.skip(comma - at + 1))) =~= prior.push(
                item@,
            ) + list_items(rest.skip(comma - at + 1)));
            at = comma + 1;
        }
    }
    items
}

/// Reads the source that the formula of a validation rule states.
pub fn read_source(formula: &str) -> (source: Option<DataValidationSource>)
    ensures
        source.deep_view() == validation_source(formula@),
{
    let chars = chars_of(formula);
    let n = chars.len();
    if n > 0 && chars[0] == '"' && chars[n - 1] == '"' {
        if n < 2 {
            None
        } else {
            Some(DataValidationSource::List(read_items(&chars, 1, n - 1)))
        }
    } else {
        Some(DataValidationSource::RangeReference(formula.to_owned()))
    }
}

impl SheetReader {
    fn validation_event(&mut self, event: &XmlEvent) -> (outcome: Result<(), DecodeError>)
        requires
            old(self).validation is Some,
        ensures
            follows(
                outcome,
                final(self).deep_view(),
                in_validation(
                    old(self).deep_view(),
                    old(self).validation.deep_view()->0,
                    event.deep_view(),
                ),
            ),
    {
        let mut taken: Option<PendingValidation> = None;
        std::mem::swap(&mut taken, &mut self.validation);
        let mut pending = taken.unwrap();
        match event {
            XmlEvent::Start { name, attributes, well_formed } => {
                if same_text(name.as_str(), "formula1") {
                    pending.inside = true;
                }
            },
            XmlEvent::Text { text } => {
                if pending.inside {
                    match text {
                        None => {
                            return Err(DecodeError::MalformedXml);
                        },
                        Some(t) => {
                            pending.formula = Some(t.clone());
                        },
                    }
                }
            },
            XmlEvent::End { name } => {
                if same_text(name.as_str(), "formula1") {
                    pending.inside = false;
                } else if same_text(name.as_str(), "dataValidation") {
                    return self.close_validation(pending);
                }
            },
            XmlEvent::Eof => {
                return Err(DecodeError::MalformedXml);
            },
            XmlEvent::Failed => {
                return Err(DecodeError::MalformedXml);
            },
            XmlEvent::Other => {},
        }
        self.validation = Some(pending);
        Ok(())
    }

    fn close_validation(&mut self, pending: PendingValidation) -> (outcome: Result<
        (),
        DecodeError,
    >)
        requires
            old(self).validation is None,
        ensures
            match (pending.range, pending.formula) {
                (Some(range), Some(formula)) => match validation_source(formula@) {
                    None => outcome == Err::<(), DecodeError>(DecodeError::MalformedXml),
                    Some(source) => outcome is Ok && final(self).deep_view() == (ReaderView {
                        sheet: SheetView {
                            validations: old(self).deep_view().sheet.validations.push(
                                ValidationView { range: range@, source },
                            ),
                            ..old(self).deep_view().sheet
                        },
                        ..old(self).deep_view()
                    }),
                },
                _ => outcome is Ok && final(self).deep_view() == old(self).deep_view(),
            },
    {
        match (pending.range, pending.formula) {
            (Some(range), Some(formula)) => match read_source(formula.as_str()) {
                None => Err(DecodeError::MalformedXml),
                Some(source) => {
                    let ghost prior = self.sheet.validations.deep_view();
                    let rule = DataValidation { range, source };
                    self.sheet.validations.push(rule);
                    assert(self.sheet.validations.deep_view() =~= prior.push(rule.deep_view()));
                    Ok(())
                },
            },
            _ => Ok(()),
        }
    }
}

/// The rows that are kept end with a row that holds a cell, and dropping
/// rows without a cell from the end of what is kept changes nothing.
pub proof fn lemma_kept_rows(cells: Seq<Seq<Option<CellView>>>)
    ensures
        kept_rows(cells) <= cells.len(),
        kept_rows(cells) > 0 ==> !is_blank_row(cells[kept_rows(cells) - 1]),
        kept_rows(cells.take(kept_rows(cells) as int)) == kept_rows(cells),
    decreases cells.len(),
{
    if cells.len() > 0 && is_blank_row(cells.last()) {
        lemma_kept_rows(cells.drop_last());
        let k = kept_rows(cells) as int;
        assert(cells.drop_last().take(k) == cells.take(k));
        if k > 0 {
            assert(cells.drop_last()[k - 1] == cells[k - 1]);
        }
    } else {
        assert(cells.take(cells.len() as int) == cells);
    }
}

/// Whether a row holds no cell.
fn row_is_blank(row: &Vec<Option<Cell>>) -> (blank: bool)
    ensures
        blank == is_blank_row(row.deep_view()),
{
    let mut c: usize = 0;
    while c < row.len()
        invariant
            c <= row@.len(),
            forall|i: int| 0 <= i < c ==> (#[trigger] row.deep_view()[i]) is None,
        decreases row@.len() - c,
    {
        if row[c].is_some() {
            assert(row.deep_view()[c as int] is Some);
            return false;
        }
        c = c + 1;
    }
    true
}

/// Drops the rows without a cell from the end of the grid.
fn trim_grid(cells: &mut Vec<Vec<Option<Cell>>>)
    ensures
        final(cells).deep_view() == old(cells).deep_view().take(
            kept_rows(old(cells).deep_view()) as int,
        ),
        final(cells)@.len() == kept_rows(old(cells).deep_view()),
{
    let ghost before = cells.deep_view();
    proof {
        assert(before.take(before.len() as int) == before);
    }
    while cells.len() > 0 && row_is_blank(&cells[cells.len() - 1])
        invariant
            cells@.len() <= before.len(),
            cells.deep_view() == before.take(cells@.len() as int),
            kept_rows(cells.deep_view()) == kept_rows(before),
        decreases cells@.len(),
    {
        let ghost prior = cells.deep_view();
        assert(prior.last() == cells@[cells@.len() - 1].deep_view());
        cells.pop();
        assert(cells.deep_view() =~= prior.drop_last());
        assert(prior.drop_last() =~= before.take(cells@.len() as int));
    }
    proof {
        let now = cells.deep_view();
        if now.len() > 0 {
            assert(now.last() == cells@[cells@.len() - 1].deep_view());
        }
    }
}

/// Pads every row of the grid to the given width, unless a row is wider.
fn square_grid(cells: &mut Vec<Vec<Option<Cell>>>, width: usize) -> (squared: bool)
    ensures
        squared == fits(old(cells).deep_view(), old(cells)@.len() as int, width as int),
        squared ==> final(cells).deep_view() == Seq::new(
            old(cells)@.len(),
            |r: int| padded(old(cells).deep_view()[r], width as int, None),
        ),
{
    let ghost before = cells.deep_view();
    let mut r: usize = 0;
    while r < cells.len()
        invariant
            r <= cells@.len(),
            cells@.len() == before.len(),
            before == old(cells).deep_view(),
            before.len() == old(cells)@.len(),
            fits(before, r as int, width as int),
            cells.deep_view() == Seq::new(
                before.len(),
                |i: int|
                    if i < r {
                        padded(before[i], width as int, None)
                    } else {
                        before[i]
                    },
            ),
        decreases cells@.len() - r,
    {
        let ghost prior = cells.deep_view();
        assert(prior[r as int] == before[r as int]);
        assert(prior[r as int].len() == cells@[r as int]@.len());
        if cells[r].len() > width {
            assert(before[r as int].len() > width);
            assert(!fits(before, before.len() as int, width as int));
            return false;
        }
        let ghost rows_before = cells@;
        pad_slots(&mut cells[r], width);
        assert(cells@[r as int].deep_view() == padded(before[r as int], width as int, None));
        assert forall|i: int| 0 <= i < before.len() implies #[trigger] cells.deep_view()[i] == (if i
            < r + 1 {
            padded(before[i], width as int, None)
        } else {
            before[i]
        }) by {
            if i != r {
                assert(cells@[i] == rows_before[i]);
                assert(cells.deep_view()[i] == prior[i]);
            }
        }
        assert(cells.deep_view() =~= Seq::new(
            before.len(),
            |i: int|
                if i < r + 1 {
                    padded(before[i], width as int, None)
                } else {
                    before[i]
                },
        ));
        r = r + 1;
    }
    assert(cells.deep_view() =~= Seq::new(
        before.len(),
        |r: int| padded(before[r], width as int, None),
    ));
    true
}

/// Attaches a hyperlink to the cell at an address, where there is one.
fn attach(cells: &mut Vec<Vec<Option<Cell>>>, name: &str, link: &String)
    ensures
        final(cells).deep_view() == attached(old(cells).deep_view(), name@, link@),
{
    let chars = chars_of(name);
    assert(chars@.subrange(0, chars@.len() as int) == chars@);
    let (column, row) = match parse_address(&chars, 0, chars.len()) {
        Some(offsets) => (offsets.0 as usize, offsets.1 as usize),
        None => {
            return ;
        },
    };
    let ghost before = cells.deep_view();
    if row >= cells.len() {
        return ;
    }
    assert(before[row as int].len() == cells@[row as int]@.len());
    if column >= cells[row].len() {
        return ;
    }
    assert(before[row as int][column as int] == cells@[row as int]@[column as int].deep_view());
    let mut slot: Option<Cell> = None;
    std::mem::swap(&mut slot, &mut cells[row][column]);
    match slot {
        Some(cell) => {
            let linked = Cell { v: cell.v, s: cell.s, hyperlink: Some(link.clone()) };
            cells[row].set(column, Some(linked));
            assert(cells@[row as int].deep_view() =~= before[row as int].update(
                column as int,
                Some(linked.deep_view()),
            ));
            assert(cells.deep_view() =~= before.update(
                row as int,
                before[row as int].update(column as int, Some(linked.deep_view())),
            ));
        },
        None => {
            assert(cells@[row as int].deep_view() =~= before[row as int]);
            assert(cells.deep_view() =~= before);
        },
    }
}

/// Cuts or pads the row entries to `n` entries.
fn resize_rows(rows: &mut Vec<RowData>, n: usize, height: &Option<String>)
    ensures
        final(rows).deep_view() == resized(
            old(rows).deep_view(),
            n as int,
            RowView { height: height.deep_view(), hidden: None },
        ),
{
    let ghost before = rows.deep_view();
    if rows.len() >= n {
        rows.truncate(n);
        assert(rows.deep_view() =~= before.take(n as int));
    } else {
        pad_rows(rows, n, height);
    }
}

/// Cuts or pads the column entries to `n` entries.
fn resize_cols(cols: &mut Vec<ColumnData>, n: usize, width: &Option<String>)
    ensures
        final(cols).deep_view() == resized(
            old(cols).deep_view(),
            n as int,
            ColumnView { width: width.deep_view(), hidden: None },
        ),
{
    let ghost before = cols.deep_view();
    if cols.len() >= n {
        cols.truncate(n);
        assert(cols.deep_view() =~= before.take(n as int));
    } else {
        pad_cols(cols, n, width);
    }
}

impl SheetReader {
    fn finish_sheet(&mut self) -> (outcome: Result<(), DecodeError>)
        ensures
            match finish(old(self).deep_view()) {
                Ok(sheet) => outcome is Ok && final(self).sheet.deep_view() == sheet,
                Err(e) => outcome == Err::<(), DecodeError>(e),
            },
    {
        let ghost before = self.sheet.cells.deep_view();
        let ghost width = self.cols_count as int;
        trim_grid(&mut self.sheet.cells);
        let rows = self.sheet.cells.len();
        proof {
            lemma_kept_rows(before);
            assert forall|r: int| 0 <= r < rows implies before.take(rows as int)[r] == before[r] by {}
            assert(fits(before.take(rows as int), rows as int, width) == fits(
                before,
                rows as int,
                width,
            )) by {
                if fits(before, rows as int, width) {
                    assert forall|r: int| 0 <= r < rows implies (#[trigger] before.take(
                        rows as int,
                    )[r]).len() <= width by {
                        assert(before[r].len() <= width);
                    }
                }
                if fits(before.take(rows as int), rows as int, width) {
                    assert forall|r: int| 0 <= r < rows implies (#[trigger] before[r]).len()
                        <= width by {
                        assert(before.take(rows as int)[r].len() <= width);
                    }
                }
            }
        }
        if !square_grid(&mut self.sheet.cells, self.cols_count as usize) {
            return Err(DecodeError::MalformedXml);
        }
        assert(self.sheet.cells.deep_view() =~= squared(before, width));
        resize_rows(&mut self.sheet.rows, rows, &self.default_row_height);
        resize_cols(&mut self.sheet.cols, self.cols_count as usize, &self.default_col_width);
        let ghost staged = self.sheet.deep_view();
        let ghost grid = self.sheet.cells.deep_view();
        let ghost links = self.hyperlinks.deep_view();
        let mut i: usize = 0;
        assert(links.take(0) =~= Seq::empty());
        while i < self.hyperlinks.len()
            invariant
                i <= links.len(),
                links == self.hyperlinks.deep_view(),
                grid == staged.cells,
                self.sheet.deep_view() == (SheetView {
                    cells: attach_all(grid, links.take(i as int)),
                    ..staged
                }),
            decreases links.len() - i,
        {
            let ghost upto = links.take(i + 1);
            assert(upto.drop_last() == links.take(i as int));
            assert(upto.last() == links[i as int]);
            let (name, link) = self.hyperlinks.entry(i);
            attach(&mut self.sheet.cells, name.as_str(), link);
            i = i + 1;
        }
        assert(links.take(i as int) == links);
        Ok(())
    }
}

/// What a sheet is decoded against, from what the caller hands over.
pub open spec fn env_of(pool: Seq<Seq<char>>, links: Entries, flags: u32) -> SheetEnv {
    SheetEnv { pool, links, formulas: flags & WITH_FORMULAS > 0 }
}

impl SheetReader {
    fn start_tag(
        &mut self,
        name: &str,
        attributes: &Vec<XmlAttribute>,
        well_formed: bool,
        links: &TextMap,
    ) -> (outcome: Result<(), DecodeError>)
        ensures
            follows(
                outcome,
                final(self).deep_view(),
                on_start(
                    old(self).deep_view(),
                    name@,
                    attributes.deep_view(),
                    well_formed,
                    links.deep_view(),
                ),
            ),
    {
        if same_text(name, "sheetFormatPr") {
            self.format_tag(attributes, well_formed)
        } else if same_text(name, "col") {
            self.col_tag(attributes, well_formed)
        } else if same_text(name, "row") {
            self.row_tag(attributes, well_formed)
        } else if same_text(name, "c") {
            self.cell_start_tag(attributes, well_formed)
        } else if same_text(name, "f") {
            self.mode = Mode::Formula;
            Ok(())
        } else if same_text(name, "v") {
            self.mode = Mode::Value;
            Ok(())
        } else if same_text(name, "mergeCell") {
            self.merge_tag(attributes, well_formed)
        } else if same_text(name, "pane") {
            self.pane_tag(attributes);
            Ok(())
        } else if same_text(name, "dataValidation") {
            self.validation_tag(attributes)
        } else if same_text(name, "hyperlink") {
            self.hyperlink_tag(attributes, well_formed, links)
        } else {
            Ok(())
        }
    }

    /// Hands the decoder the next event of the part. Gives `true` once the
    /// worksheet has ended: `sheet` then holds the decoded sheet, and no
    /// further event is to be fed. After an error the decoder is of no
    /// further use.
    pub fn feed(&mut self, event: &XmlEvent, pool: &Vec<String>, links: &TextMap, flags: u32) -> (progress:
        Result<bool, DecodeError>)
        ensures
            match step(
                old(self).deep_view(),
                event.deep_view(),
                env_of(pool.deep_view(), links.deep_view(), flags),
            ) {
                Step::Continue(state) => progress == Ok::<bool, DecodeError>(false)
                    && final(self).deep_view() == state,
                Step::Done(sheet) => progress == Ok::<bool, DecodeError>(true)
                    && final(self).sheet.deep_view() == sheet,
                Step::Fail(e) => progress == Err::<bool, DecodeError>(e),
            },
    {
        if self.validation.is_some() {
            self.validation_event(event)?;
            return Ok(false);
        }
        match event {
            XmlEvent::Start { name, attributes, well_formed } => {
                self.start_tag(name.as_str(), attributes, *well_formed, links)?;
                Ok(false)
            },
            XmlEvent::End { name } => {
                let name = name.as_str();
                if same_text(name, "c") {
                    self.cell_end_tag()?;
                    Ok(false)
                } else if same_text(name, "f") || same_text(name, "v") {
                    self.mode = Mode::Idle;
                    Ok(false)
                } else if same_text(name, "worksheet") {
                    self.finish_sheet()?;
                    Ok(true)
                } else {
                    Ok(false)
                }
            },
            XmlEvent::Text { text } => {
                self.text(text, pool, flags)?;
                Ok(false)
            },
            XmlEvent::Eof => Err(DecodeError::MalformedXml),
            XmlEvent::Failed => Err(DecodeError::MalformedXml),
            XmlEvent::Other => Ok(false),
        }
    }
}

/// Decodes the events of a worksheet part into the sheet of the given name.
/// `pool` holds the shared strings of the workbook, `links` the
/// relationships of the sheet, and `flags` says whether the text of
/// formulas is asked for.
pub fn decode_sheet(
    name: String,
    events: &Vec<XmlEvent>,
    pool: &Vec<String>,
    links: &TextMap,
    flags: u32,
) -> (sheet: Result<SheetData, DecodeError>)
    ensures
        decoded(sheet) == sheet_of(
            name@,
            events.deep_view(),
            env_of(pool.deep_view(), links.deep_view(), flags),
        ),
        sheet matches Ok(decoded_sheet) ==> is_rectangular(decoded_sheet.deep_view())
            && all_hold_something(decoded_sheet.deep_view().cells) && sizes_are_numbers(
            decoded_sheet.deep_view(),
        ),
{
    let ghost all = events.deep_view();
    let ghost env = env_of(pool.deep_view(), links.deep_view(), flags);
    proof {
        lemma_decoded_sheet_is_rectangular(initial_reader(name@), all, env);
        lemma_decoded_cells_hold_something(initial_reader(name@), all, env);
        lemma_decoded_sizes_are_numbers(initial_reader(name@), all, env);
    }
    let mut reader = SheetReader::new(name);
    let mut i: usize = 0;
    assert(all.skip(0) == all);
    while i < events.len()
        invariant
            i <= events@.len(),
            all == events.deep_view(),
            env == env_of(pool.deep_view(), links.deep_view(), flags),
            sheet_of(name@, all, env) == sheet_from(reader.deep_view(), all.skip(i as int), env),
            sheet_of(name@, all, env) matches Ok(whole) ==> is_rectangular(whole)
                && all_hold_something(whole.cells) && sizes_are_numbers(whole),
        decreases events@.len() - i,
    {
        assert(all.skip(i as int)[0] == events@[i as int].deep_view());
        assert(all.skip(i as int).drop_first() == all.skip(i + 1));
        match reader.feed(&events[i], pool, links, flags) {
            Err(e) => {
                return Err(e);
            },
            Ok(true) => {
                return Ok(reader.sheet);
            },
            Ok(false) => {},
        }
        i = i + 1;
    }
    Err(DecodeError::MalformedXml)
}

/// Decodes the events that a reader still holds into the sheet of the
/// given name, as `decode_sheet` does.
pub fn decode_sheet_from(
    name: String,
    events: &mut EventReader,
    pool: &Vec<String>,
    links: &TextMap,
    flags: u32,
) -> (sheet: Result<SheetData, DecodeError>)
    ensures
        decoded(sheet) == sheet_of(
            name@,
            old(events).remaining(),
            env_of(pool.deep_view(), links.deep_view(), flags),
        ),
        sheet matches Ok(decoded_sheet) ==> is_rectangular(decoded_sheet.deep_view())
            && all_hold_something(decoded_sheet.deep_view().cells) && sizes_are_numbers(
            decoded_sheet.deep_view(),
        ),
{
    let ghost all = events.remaining();
    let ghost env = env_of(pool.deep_view(), links.deep_view(), flags);
    proof {
        lemma_decoded_sheet_is_rectangular(initial_reader(name@), all, env);
        lemma_decoded_cells_hold_something(initial_reader(name@), all, env);
        lemma_decoded_sizes_are_numbers(initial_reader(name@), all, env);
    }
    let mut reader = SheetReader::new(name);
    loop
        invariant
            all == old(events).remaining(),
            env == env_of(pool.deep_view(), links.deep_view(), flags),
            sheet_of(name@, all, env) == sheet_from(reader.deep_view(), events.remaining(), env),
            sheet_of(name@, all, env) matches Ok(whole) ==> is_rectangular(whole)
                && all_hold_something(whole.cells) && sizes_are_numbers(whole),
        decreases events.remaining().len(),
    {
        let event = events.next();
        match reader.feed(&event, pool, links, flags) {
            Err(e) => {
                return Err(e);
            },
            Ok(true) => {
                return Ok(reader.sheet);
            },
            Ok(false) => {},
        }
    }
}

} // verus!
