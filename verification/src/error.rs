//! The ways in which decoding a workbook fails.

use vstd::prelude::*;

verus! {

/// Why the events of a part could not be decoded.
#[derive(Clone, Copy, Debug, PartialEq, Eq, Structural)]
pub enum DecodeError {
    /// The part is not well-formed: the tokenizer failed, the part ended
    /// before its root element was closed, or an attribute that had to be
    /// read was unreadable or not of the expected form.
    MalformedXml,
    /// An index or an identifier points at an entry that no table holds.
    UnresolvedReference,
}

/// What a decoder returns, what it decoded seen through its view.
pub open spec fn decoded<T: DeepView>(result: Result<T, DecodeError>) -> Result<T::V, DecodeError> {
    match result {
        Ok(value) => Ok(value.deep_view()),
        Err(e) => Err(e),
    }
}

/// Why a workbook, a sheet or the style table could not be had.
#[derive(Debug)]
pub enum XlsxError {
    /// The bytes are no archive.
    NotAnArchive,
    /// The archive lacks a part that is needed; the path of the part.
    FileNotFound(String),
    /// The workbook has no sheet of the given name.
    UnknownSheet(String),
    /// A part could not be decoded.
    Decode(DecodeError),
}

/// What an `XlsxError` holds, its texts as sequences of characters.
pub enum XlsxErrorView {
    NotAnArchive,
    FileNotFound(Seq<char>),
    UnknownSheet(Seq<char>),
    Decode(DecodeError),
}

impl DeepView for XlsxError {
    type V = XlsxErrorView;

    open spec fn deep_view(&self) -> XlsxErrorView {
        match self {
            XlsxError::NotAnArchive => XlsxErrorView::NotAnArchive,
            XlsxError::FileNotFound(path) => XlsxErrorView::FileNotFound(path@),
            XlsxError::UnknownSheet(name) => XlsxErrorView::UnknownSheet(name@),
            XlsxError::Decode(e) => XlsxErrorView::Decode(*e),
        }
    }
}

} // verus!
