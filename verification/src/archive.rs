//! The parts of a zipped workbook.

use vstd::prelude::*;
use std::io::Read;

verus! {

/// What looking a part up in an archive gives.
pub enum PartRead {
    /// The bytes are no archive.
    NoArchive,
    /// The archive has no part of that path, or cannot open it.
    Absent,
    /// The part is there and cannot be read to its end.
    Unreadable,
    /// The content of the part.
    Bytes(Vec<u8>),
}

/// What a `PartRead` holds, the content as a sequence of bytes.
pub enum PartView {
    NoArchive,
    Absent,
    Unreadable,
    Bytes(Seq<u8>),
}

impl DeepView for PartRead {
    type V = PartView;

    open spec fn deep_view(&self) -> PartView {
        match self {
            PartRead::NoArchive => PartView::NoArchive,
            PartRead::Absent => PartView::Absent,
            PartRead::Unreadable => PartView::Unreadable,
            PartRead::Bytes(bytes) => PartView::Bytes(bytes@),
        }
    }
}

/// What the archive `data` holds under `path`, as `zip` reads it.
pub uninterp spec fn archive_part(data: Seq<u8>, path: Seq<char>) -> PartView;

/// `zip::ZipArchive::new` over the bytes, `ZipArchive::by_name_decrypt` for
/// the path with an empty password, and `read_to_end` on the file that
/// comes back; each failure is told apart by the call that failed. A part
/// that the archive cannot open without a password, or marks as encrypted
/// in a way it cannot read, counts as absent. The contract claims that
/// what comes back depends on the bytes and the path alone, and gives it
/// the name `archive_part`.
#[verifier::external_body]
pub(crate) fn extract_part(data: &[u8], path: &str) -> (part: PartRead)
    ensures
        part.deep_view() == archive_part(data@, path@),
{
    let mut archive = match zip::ZipArchive::new(std::io::Cursor::new(data)) {
        Ok(archive) => archive,
        Err(_) => return PartRead::NoArchive,
    };
    let mut file = match archive.by_name_decrypt(path, b"") {
        Ok(Ok(file)) => file,
        _ => return PartRead::Absent,
    };
    let mut bytes = Vec::new();
    match file.read_to_end(&mut bytes) {
        Ok(_) => PartRead::Bytes(bytes),
        Err(_) => PartRead::Unreadable,
    }
}

} // verus!
