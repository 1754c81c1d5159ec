//! What a decoded sheet holds: its grid of cells, the sizes of its columns
//! and rows, its merged ranges, validation rules and frozen panes.

use vstd::prelude::*;

verus! {

/// The width of a column and whether it is hidden.
#[derive(Clone, Debug, PartialEq, Eq)]
pub struct ColumnData {
    /// The width in character units, as the text of a number that the
    /// part states; nothing where the built-in default width applies.
    pub width: Option<String>,
    pub hidden: Option<bool>,
}

/// What a `ColumnData` holds.
pub struct ColumnView {
    pub width: Option<Seq<char>>,
    pub hidden: Option<bool>,
}

impl DeepView for ColumnData {
    type V = ColumnView;

    open spec fn deep_view(&self) -> ColumnView {
        ColumnView { width: self.width.deep_view(), hidden: self.hidden }
    }
}

/// The height of a row and whether it is hidden.
#[derive(Clone, Debug, PartialEq, Eq)]
pub struct RowData {
    /// The height in points, as the text of a number that the part
    /// states; nothing where the built-in default height applies.
    pub height: Option<String>,
    pub hidden: Option<bool>,
}

/// What a `RowData` holds.
pub struct RowView {
    pub height: Option<Seq<char>>,
    pub hidden: Option<bool>,
}

impl DeepView for RowData {
    type V = RowView;

    open spec fn deep_view(&self) -> RowView {
        RowView { height: self.height.deep_view(), hidden: self.hidden }
    }
}

/// A place in the grid, zero-based.
#[derive(Clone, Copy, Debug, PartialEq, Eq)]
pub struct CellCoords {
    pub column: u32,
    pub row: u32,
}

/// A merged range: its first and last corner, both inside the range.
#[derive(Clone, Copy, Debug, PartialEq, Eq)]
pub struct MergedCell {
    pub from: CellCoords,
    pub to: CellCoords,
}

impl DeepView for MergedCell {
    type V = MergedCell;

    open spec fn deep_view(&self) -> MergedCell {
        *self
    }
}

/// A cell that holds something: a value, a style or a hyperlink.
#[derive(Clone, Debug, PartialEq, Eq)]
pub struct Cell {
    /// The value: a literal, a shared string, or a formula behind `=`.
    pub v: Option<String>,
    /// The index of the cell's style in the style table; 0 is the default.
    pub s: u32,
    /// Where the cell links to.
    pub hyperlink: Option<String>,
}

/// What a `Cell` holds.
pub struct CellView {
    pub v: Option<Seq<char>>,
    pub s: u32,
    pub hyperlink: Option<Seq<char>>,
}

impl DeepView for Cell {
    type V = CellView;

    open spec fn deep_view(&self) -> CellView {
        CellView { v: self.v.deep_view(), s: self.s, hyperlink: self.hyperlink.deep_view() }
    }
}

/// A cell without value, style or hyperlink.
pub open spec fn blank_cell() -> CellView {
    CellView { v: None, s: 0, hyperlink: None }
}

impl Cell {
    /// A cell without value, style or hyperlink.
    pub fn new() -> (cell: Cell)
        ensures
            cell.deep_view() == blank_cell(),
    {
        Cell { v: None, s: 0, hyperlink: None }
    }
}

/// Where the options of a validation rule come from.
#[derive(Clone, Debug, PartialEq, Eq)]
pub enum DataValidationSource {
    /// The options themselves.
    List(Vec<String>),
    /// A range or a formula that yields them.
    RangeReference(String),
}

/// What a `DataValidationSource` holds.
pub enum SourceView {
    List(Seq<Seq<char>>),
    RangeReference(Seq<char>),
}

impl DeepView for DataValidationSource {
    type V = SourceView;

    open spec fn deep_view(&self) -> SourceView {
        match self {
            DataValidationSource::List(items) => SourceView::List(items.deep_view()),
            DataValidationSource::RangeReference(text) => SourceView::RangeReference(text@),
        }
    }
}

/// A validation rule: the cells it applies to and the source of its options.
#[derive(Clone, Debug, PartialEq, Eq)]
pub struct DataValidation {
    pub range: String,
    pub source: DataValidationSource,
}

/// What a `DataValidation` holds.
pub struct ValidationView {
    pub range: Seq<char>,
    pub source: SourceView,
}

impl DeepView for DataValidation {
    type V = ValidationView;

    open spec fn deep_view(&self) -> ValidationView {
        ValidationView { range: self.range@, source: self.source.deep_view() }
    }
}

/// A decoded sheet.
#[derive(Clone, Debug, PartialEq, Eq)]
pub struct SheetData {
    pub name: String,
    /// One entry per column of the grid.
    pub cols: Vec<ColumnData>,
    /// One entry per row of the grid.
    pub rows: Vec<RowData>,
    /// The grid, row by row; a slot without a cell is empty.
    pub cells: Vec<Vec<Option<Cell>>>,
    pub merged: Vec<MergedCell>,
    pub validations: Vec<DataValidation>,
    /// How many columns are frozen, as the text of a number that the part
    /// states.
    pub frozen_cols: Option<String>,
    /// How many rows are frozen, as the text of a number that the part
    /// states.
    pub frozen_rows: Option<String>,
}

/// What a `SheetData` holds.
pub struct SheetView {
    pub name: Seq<char>,
    pub cols: Seq<ColumnView>,
    pub rows: Seq<RowView>,
    pub cells: Seq<Seq<Option<CellView>>>,
    pub merged: Seq<MergedCell>,
    pub validations: Seq<ValidationView>,
    pub frozen_cols: Option<Seq<char>>,
    pub frozen_rows: Option<Seq<char>>,
}

impl DeepView for SheetData {
    type V = SheetView;

    open spec fn deep_view(&self) -> SheetView {
        SheetView {
            name: self.name@,
            cols: self.cols.deep_view(),
            rows: self.rows.deep_view(),
            cells: self.cells.deep_view(),
            merged: self.merged.deep_view(),
            validations: self.validations.deep_view(),
            frozen_cols: self.frozen_cols.deep_view(),
            frozen_rows: self.frozen_rows.deep_view(),
        }
    }
}

/// A sheet of the given name that holds nothing.
pub open spec fn blank_sheet(name: Seq<char>) -> SheetView {
    SheetView {
        name,
        cols: Seq::empty(),
        rows: Seq::empty(),
        cells: Seq::empty(),
        merged: Seq::empty(),
        validations: Seq::empty(),
        frozen_cols: None,
        frozen_rows: None,
    }
}

/// Whether the grid of a sheet is a rectangle that its column and row
/// entries describe: every row has one slot per column entry, and there is
/// one row entry per row.
pub open spec fn is_rectangular(sheet: SheetView) -> bool {
    &&& sheet.rows.len() == sheet.cells.len()
    &&& forall|r: int| 0 <= r < sheet.cells.len() ==> (#[trigger] sheet.cells[r]).len()
        == sheet.cols.len()
}

impl SheetData {
    /// A sheet of the given name that holds nothing.
    pub fn new(name: String) -> (sheet: SheetData)
        ensures
            sheet.deep_view() == blank_sheet(name@),
    {
        let sheet = SheetData {
            name,
            cols: Vec::new(),
            rows: Vec::new(),
            cells: Vec::new(),
            merged: Vec::new(),
            frozen_cols: None,
            frozen_rows: None,
            validations: Vec::new(),
        };
        assert(sheet.deep_view().cols =~= Seq::empty());
        assert(sheet.deep_view().rows =~= Seq::empty());
        assert(sheet.deep_view().cells =~= Seq::empty());
        assert(sheet.deep_view().merged =~= Seq::empty());
        assert(sheet.deep_view().validations =~= Seq::empty());
        sheet
    }
}

} // verus!
