use xlsx_import::error::DecodeError;
use xlsx_import::styles::StyleRecord;
use xlsx_import::styles_reader::{decode_styles, decode_styles_from};
use xlsx_import::xml::{read_events, EventReader};

fn decode(xml: &str) -> Result<Vec<StyleRecord>, DecodeError> {
    decode_styles(&read_events(xml.as_bytes()))
}

fn text(s: &str) -> Option<String> {
    Some(s.to_string())
}

const SHEET: &str = "<styleSheet>\
    <numFmts><numFmt numFmtId=\"164\" formatCode=\"0.000\"/></numFmts>\
    <fonts>\
      <font><sz val=\"11\"/><name val=\"Calibri\"/><color rgb=\"FF112233\"/></font>\
      <font><b/><i/><u/><strike/><sz val=\"12\"/><color indexed=\"2\"/></font>\
      <font><strike/></font>\
    </fonts>\
    <fills>\
      <fill><patternFill patternType=\"none\"/></fill>\
      <fill><patternFill patternType=\"solid\"><fgColor rgb=\"80FFFF00\"/><bgColor indexed=\"64\"/></patternFill></fill>\
    </fills>\
    <borders>\
      <border><left/><right/><top/><bottom/><diagonal/></border>\
      <border>\
        <left style=\"thin\"><color rgb=\"FF000000\"/></left>\
        <right style=\"thick\"><color indexed=\"4\"/></right>\
        <top style=\"medium\"/>\
        <bottom style=\"wavy\"/>\
      </border>\
    </borders>\
    <cellStyleXfs><xf numFmtId=\"0\" fontId=\"9\" fillId=\"9\" borderId=\"9\"/></cellStyleXfs>\
    <cellXfs>\
      <xf numFmtId=\"0\" fontId=\"0\" fillId=\"0\" borderId=\"0\"/>\
      <xf numFmtId=\"164\" fontId=\"1\" fillId=\"1\" borderId=\"1\"><alignment horizontal=\"center\" vertical=\"top\" wrapText=\"1\"/></xf>\
      <xf numFmtId=\"14\" fontId=\"2\"><alignment wrapText=\"0\"/></xf>\
    </cellXfs>\
    </styleSheet>";

#[test]
fn cell_formats_resolve_their_references() {
    let styles = decode(SHEET).unwrap();
    assert_eq!(styles.len(), 3);
    let mut first = StyleRecord::new();
    first.font_size = text("11");
    first.font_family = text("Calibri");
    first.color = text("rgba(17,34,51,1)");
    first.format = text("General");
    assert_eq!(styles[0], first);
    let mut second = StyleRecord::new();
    second.font_weight = text("bold");
    second.font_style = text("italic");
    second.text_decoration = text("line-through underline");
    second.font_size = text("12");
    second.color = text("#FF0000");
    second.background = text("rgba(255,255,0,0.5019608)");
    second.border_left = text("0.5px solid rgba(0,0,0,1)");
    second.border_right = text("2px solid #0000FF");
    second.border_top = text("1px solid #000000");
    second.format = text("0.000");
    second.align = text("center");
    second.vertical_align = text("top");
    second.wrap_text = text("true");
    assert_eq!(styles[1], second);
    let mut third = StyleRecord::new();
    third.text_decoration = text("line-through");
    third.format = text("mm-dd-yy");
    assert_eq!(styles[2], third);
}

#[test]
fn a_bold_font_of_twelve_points_is_sixteen_pixels() {
    let styles = decode(
        "<styleSheet><fonts><font/><font><b/><sz val=\"12\"/></font></fonts>\
         <cellXfs><xf fontId=\"0\"/><xf fontId=\"1\"/></cellXfs></styleSheet>",
    )
    .unwrap();
    assert_eq!(styles[0], StyleRecord::new());
    assert_eq!(styles[1].font_weight, text("bold"));
    let points: f32 = styles[1].font_size.as_ref().unwrap().parse().unwrap();
    assert_eq!((points / 0.75).to_string() + "px", "16px");
}

#[test]
fn decorations_combine_in_either_order() {
    let styles = decode(
        "<styleSheet><fonts><font><u/></font><font><strike/><u/></font><font><u/><strike/></font>\
         <font><u/><u/></font><font><strike/><u/><strike/></font></fonts>\
         <cellXfs><xf fontId=\"0\"/><xf fontId=\"1\"/><xf fontId=\"2\"/><xf fontId=\"3\"/>\
         <xf fontId=\"4\"/></cellXfs></styleSheet>",
    )
    .unwrap();
    assert_eq!(styles[0].text_decoration, text("underline"));
    assert_eq!(styles[1].text_decoration, text("line-through underline"));
    assert_eq!(styles[2].text_decoration, text("line-through underline"));
    assert_eq!(styles[3].text_decoration, text("underline"));
    assert_eq!(styles[4].text_decoration, text("line-through underline"));
}

#[test]
fn the_first_of_two_equal_sides_counts() {
    let styles = decode(
        "<styleSheet><borders><border>\
         <left style=\"thin\"/><left style=\"thick\"/><top/><top style=\"double\"/>\
         </border></borders><cellXfs><xf borderId=\"0\"/></cellXfs></styleSheet>",
    )
    .unwrap();
    assert_eq!(styles[0].border_left, text("0.5px solid #000000"));
    assert_eq!(styles[0].border_top, text("1px double #000000"));
}

#[test]
fn border_styles_render_as_lines() {
    let styles = decode(
        "<styleSheet><borders><border>\
         <left style=\"dotted\"/><right style=\"hair\"/><top style=\"double\"/><bottom style=\"medium\"/>\
         </border></borders><cellXfs><xf borderId=\"0\"/></cellXfs></styleSheet>",
    )
    .unwrap();
    assert_eq!(styles[0].border_left, text("1px dotted #000000"));
    assert_eq!(styles[0].border_right, text("1px dashed #000000"));
    assert_eq!(styles[0].border_top, text("1px double #000000"));
    assert_eq!(styles[0].border_bottom, text("1px solid #000000"));
}

#[test]
fn an_index_past_a_table_is_unresolved() {
    assert_eq!(
        decode("<styleSheet><cellXfs><xf fontId=\"0\"/></cellXfs></styleSheet>"),
        Err(DecodeError::UnresolvedReference)
    );
    assert_eq!(
        decode("<styleSheet><fonts><font/></fonts><cellXfs><xf fontId=\"0\" fillId=\"0\"/></cellXfs></styleSheet>"),
        Err(DecodeError::UnresolvedReference)
    );
    assert_eq!(
        decode("<styleSheet><cellXfs><xf borderId=\"3\"/></cellXfs></styleSheet>"),
        Err(DecodeError::UnresolvedReference)
    );
}

#[test]
fn a_number_format_that_nothing_declares_is_unresolved() {
    assert_eq!(
        decode("<styleSheet><cellXfs><xf numFmtId=\"165\"/></cellXfs></styleSheet>"),
        Err(DecodeError::UnresolvedReference)
    );
}

#[test]
fn an_index_that_is_no_number_is_malformed() {
    assert_eq!(
        decode("<styleSheet><fonts><font/></fonts><cellXfs><xf fontId=\"x\"/></cellXfs></styleSheet>"),
        Err(DecodeError::MalformedXml)
    );
}

#[test]
fn a_colour_that_is_no_argb_value_is_malformed() {
    assert_eq!(
        decode("<styleSheet><fonts><font><color rgb=\"red\"/></font></fonts></styleSheet>"),
        Err(DecodeError::MalformedXml)
    );
    assert_eq!(
        decode("<styleSheet><borders><border><color rgb=\"FF000000\"/></border></borders></styleSheet>"),
        Err(DecodeError::MalformedXml)
    );
}

#[test]
fn a_style_sheet_that_ends_early_is_malformed() {
    assert_eq!(decode("<styleSheet><fonts>"), Err(DecodeError::MalformedXml));
}

#[test]
fn merging_takes_what_the_other_record_sets() {
    let mut base = StyleRecord::new();
    base.color = text("a");
    base.align = text("left");
    let mut over = StyleRecord::new();
    over.color = text("b");
    over.format = text("0");
    base.merge(&over);
    let mut expected = StyleRecord::new();
    expected.color = text("b");
    expected.align = text("left");
    expected.format = text("0");
    assert_eq!(base, expected);
}

#[test]
fn a_font_size_that_is_no_number_is_malformed() {
    assert_eq!(
        decode("<styleSheet><fonts><font><sz val=\"big\"/></font></fonts></styleSheet>"),
        Err(DecodeError::MalformedXml)
    );
    let styles = decode(
        "<styleSheet><fonts><font><sz val=\"10.5\"/></font></fonts>\
         <cellXfs><xf fontId=\"0\"/></cellXfs></styleSheet>",
    )
    .unwrap();
    let points: f32 = styles[0].font_size.as_ref().unwrap().parse().unwrap();
    assert_eq!((points / 0.75).to_string() + "px", "14px");
}

#[test]
fn a_reader_of_styles_decodes_as_its_events_do() {
    let mut reader = EventReader::new(SHEET.as_bytes());
    assert_eq!(decode_styles_from(&mut reader), decode(SHEET));
    let mut reader = EventReader::new(b"<styleSheet>");
    assert_eq!(decode_styles_from(&mut reader), Err(DecodeError::MalformedXml));
}

#[test]
fn the_colour_attribute_written_last_counts() {
    let styles = decode(
        "<styleSheet><fonts>\
         <font><color rgb=\"FF010203\" indexed=\"2\"/></font>\
         <font><color indexed=\"2\" rgb=\"FF010203\"/></font>\
         </fonts><fills>\
         <fill><fgColor indexed=\"3\" rgb=\"00FFFFFF\"/></fill>\
         <fill><fgColor rgb=\"00FFFFFF\" indexed=\"3\"/></fill>\
         </fills><borders><border>\
         <left style=\"thin\"><color rgb=\"FF000000\" indexed=\"4\"/></left>\
         <right style=\"thin\"><color indexed=\"4\" rgb=\"FF000000\"/></right>\
         </border></borders><cellXfs>\
         <xf fontId=\"0\" fillId=\"0\" borderId=\"0\"/><xf fontId=\"1\" fillId=\"1\"/>\
         </cellXfs></styleSheet>",
    )
    .unwrap();
    assert_eq!(styles[0].color, text("#FF0000"));
    assert_eq!(styles[1].color, text("rgba(1,2,3,1)"));
    assert_eq!(styles[0].background, text("rgba(255,255,255,0)"));
    assert_eq!(styles[1].background, text("#00FF00"));
    assert_eq!(styles[0].border_left, text("0.5px solid #0000FF"));
    assert_eq!(styles[0].border_right, text("0.5px solid rgba(0,0,0,1)"));
    assert_eq!(
        decode("<styleSheet><fonts><font><color rgb=\"bad\" indexed=\"2\"/></font></fonts></styleSheet>"),
        Err(DecodeError::MalformedXml)
    );
}
