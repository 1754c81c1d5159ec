//! Decoder for spreadsheet workbooks stored as zipped XML parts: the grid
//! of each sheet with its column and row sizes, merged ranges, frozen
//! panes, validation rules and hyperlinks, and the table of cell styles.

pub mod archive;
pub mod border;
pub mod color;
pub mod dict;
pub mod error;
pub mod format;
pub mod range;
pub mod shared_strings;
pub mod sheet;
pub mod sheet_laws;
pub mod sheet_reader;
pub mod styles;
pub mod styles_laws;
pub mod styles_reader;
pub mod text;
pub mod workbook;
pub mod xlsx;
pub mod xml;

pub use crate::error::{DecodeError, XlsxError};
pub use crate::sheet::{
    Cell, CellCoords, ColumnData, DataValidation, DataValidationSource, MergedCell, RowData,
    SheetData,
};
pub use crate::sheet_reader::WITH_FORMULAS;
pub use crate::styles::StyleRecord;
pub use crate::xlsx::XLSX;
