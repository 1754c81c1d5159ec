use xlsx_import::color::{alpha_string, get_indexed_color, get_xlsx_rgb, xlsx_rgb};
use xlsx_import::format::get_format;

#[test]
fn rgb_renders_channels_in_decimal() {
    assert_eq!(get_xlsx_rgb(String::from("FF000000")), "rgba(0,0,0,1)");
    assert_eq!(get_xlsx_rgb(String::from("FFFF0000")), "rgba(255,0,0,1)");
    assert_eq!(get_xlsx_rgb(String::from("00102030")), "rgba(16,32,48,0)");
    assert_eq!(get_xlsx_rgb(String::from("80abcdef")), "rgba(171,205,239,0.5019608)");
}

#[test]
fn rgb_reads_the_first_eight_digits_only() {
    assert_eq!(xlsx_rgb("FF0A0B0Cxyz"), Some(String::from("rgba(10,11,12,1)")));
}

#[test]
fn rgb_rejects_what_is_no_argb_value() {
    assert_eq!(xlsx_rgb(""), None);
    assert_eq!(xlsx_rgb("FF00000"), None);
    assert_eq!(xlsx_rgb("FF00G000"), None);
    assert_eq!(xlsx_rgb("+F000000"), None);
    assert_eq!(xlsx_rgb("FF0000\u{e9}0"), None);
}

#[test]
fn alpha_is_the_single_precision_quotient() {
    for a in 0..=255u8 {
        let expected = (a as f32 / 255f32).to_string();
        assert_eq!(alpha_string(a), expected);
        let argb = format!("{:02X}010203", a);
        assert_eq!(get_xlsx_rgb(argb), format!("rgba(1,2,3,{})", expected));
    }
}

#[test]
fn indexed_colors_follow_the_palette() {
    assert_eq!(get_indexed_color("0"), "#000000");
    assert_eq!(get_indexed_color("1"), "#FFFFFF");
    assert_eq!(get_indexed_color("2"), "#FF0000");
    assert_eq!(get_indexed_color("22"), "#C0C0C0");
    assert_eq!(get_indexed_color("63"), "#333333");
}

#[test]
fn unknown_indexed_colors_are_black() {
    assert_eq!(get_indexed_color("64"), "#000000");
    assert_eq!(get_indexed_color("01"), "#000000");
    assert_eq!(get_indexed_color("+1"), "#000000");
    assert_eq!(get_indexed_color(""), "#000000");
    assert_eq!(get_indexed_color("red"), "#000000");
    assert_eq!(get_indexed_color("99999999999999999999"), "#000000");
}

#[test]
fn builtin_formats_are_sparse() {
    assert_eq!(get_format("0"), Some(String::from("General")));
    assert_eq!(get_format("4"), Some(String::from("#,##0.00")));
    assert_eq!(get_format("14"), Some(String::from("mm-dd-yy")));
    assert_eq!(get_format("38"), Some(String::from("#,##0 ;[Red](#,##0)")));
    assert_eq!(get_format("49"), Some(String::from("@")));
    assert_eq!(get_format("5"), None);
    assert_eq!(get_format("23"), None);
    assert_eq!(get_format("50"), None);
    assert_eq!(get_format("164"), None);
    assert_eq!(get_format("00"), None);
    assert_eq!(get_format(""), None);
}
