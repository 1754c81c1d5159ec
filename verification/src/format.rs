//! The number formats that every workbook has without declaring them.

use vstd::prelude::*;
use vstd::string::StringExecFns;
use crate::text::{canonical_decimal, parse_canonical};

verus! {

/// The format code of a builtin format, or nothing where the identifier
/// names none.
pub open spec fn builtin_format(id: u32) -> Option<Seq<char>> {
    match id {
        0 => Some("General"@),
        1 => Some("0"@),
        2 => Some("0.00"@),
        3 => Some("#,##0"@),
        4 => Some("#,##0.00"@),
        9 => Some("0%"@),
        10 => Some("0.00%"@),
        11 => Some("0.00E+00"@),
        12 => Some("# ?/?"@),
        13 => Some("# ??/??"@),
        14 => Some("mm-dd-yy"@),
        15 => Some("d-mmm-yy"@),
        16 => Some("d-mmm"@),
        17 => Some("mmm-yy"@),
        18 => Some("h:mm AM/PM"@),
        19 => Some("h:mm:ss AM/PM"@),
        20 => Some("h:mm"@),
        21 => Some("h:mm:ss"@),
        22 => Some("m/d/yy h:mm"@),
        37 => Some("#,##0 ;(#,##0)"@),
        38 => Some("#,##0 ;[Red](#,##0)"@),
        40 => Some("#,##0.00;[Red](#,##0.00)"@),
        45 => Some("mm:ss"@),
        46 => Some("[h]:mm:ss"@),
        47 => Some("mmss.0"@),
        48 => Some("##0.0E+0"@),
        49 => Some("@"@),
        _ => None,
    }
}

/// The format code that the text of an identifier names: the identifier is
/// a decimal number without sign or leading zero.
pub open spec fn format_of(code: Seq<char>) -> Option<Seq<char>> {
    match canonical_decimal(code) {
        Some(id) => builtin_format(id),
        None => None,
    }
}

/// The format code of a builtin format.
pub fn get_format(code: &str) -> (format: Option<String>)
    ensures
        format.deep_view() == format_of(code@),
{
    let id = match parse_canonical(code) {
        Some(id) => id,
        None => {
            return None;
        },
    };
    let format = match id {
        0 => "General",
        1 => "0",
        2 => "0.00",
        3 => "#,##0",
        4 => "#,##0.00",
        9 => "0%",
        10 => "0.00%",
        11 => "0.00E+00",
        12 => "# ?/?",
        13 => "# ??/??",
        14 => "mm-dd-yy",
        15 => "d-mmm-yy",
        16 => "d-mmm",
        17 => "mmm-yy",
        18 => "h:mm AM/PM",
        19 => "h:mm:ss AM/PM",
        20 => "h:mm",
        21 => "h:mm:ss",
        22 => "m/d/yy h:mm",
        37 => "#,##0 ;(#,##0)",
        38 => "#,##0 ;[Red](#,##0)",
        40 => "#,##0.00;[Red](#,##0.00)",
        45 => "mm:ss",
        46 => "[h]:mm:ss",
        47 => "mmss.0",
        48 => "##0.0E+0",
        49 => "@",
        _ => {
            return None;
        },
    };
    Some(String::from_str(format))
}

} // verus!
