//! The decoder of the styles part: one pass over its events that collects
//! the fonts, fills, borders and number formats, and resolves each cell
//! format against them.

use vstd::prelude::*;
use vstd::string::StringExecFns;
use crate::border::{side_value, style_of_keyword, Border, BorderPosition, BorderView};
use crate::color::{get_indexed_color, indexed_color, rgba_of, xlsx_rgb};
use crate::dict::{inserted, lookup, Entries, TextMap};
use crate::error::{decoded, DecodeError};
use crate::format::{format_of, get_format};
use crate::styles::{blank_style, merged, or_else, StyleRecord, StyleView};
use crate::styles_laws::{font_sizes_are_numbers, lemma_decoded_font_sizes_are_numbers};
use crate::text::{number_of, parse_number, same_text};
use crate::xml::{
    find_place, flag_of, ill_sized, place_of, read_attribute, read_flag, read_size, unreadable,
    value_of, AttributeView, EventReader, EventView, XmlAttribute, XmlEvent,
};

verus! {

/// Which record the reader is inside of.
#[derive(Clone, Copy, Debug, PartialEq, Eq, Structural)]
pub enum StylePath {
    Any,
    Font,
    Fill,
    Border,
    Xf,
}

/// The state of the decoder between two events.
pub struct StylesReader {
    pub path: StylePath,
    /// Whether the reader is inside the list of cell formats.
    pub in_cell_formats: bool,
    pub fonts: Vec<StyleRecord>,
    pub fills: Vec<StyleRecord>,
    pub borders: Vec<StyleRecord>,
    /// The sides of the border that is being read.
    pub sides: Vec<Border>,
    /// The number formats that the part declares, from identifier to code.
    pub formats: TextMap,
    /// The cell formats resolved so far.
    pub styles: Vec<StyleRecord>,
}

/// What a `StylesReader` holds.
pub struct StylesView {
    pub path: StylePath,
    pub in_cell_formats: bool,
    pub fonts: Seq<StyleView>,
    pub fills: Seq<StyleView>,
    pub borders: Seq<StyleView>,
    pub sides: Seq<BorderView>,
    pub formats: Entries,
    pub styles: Seq<StyleView>,
}

impl DeepView for StylesReader {
    type V = StylesView;

    open spec fn deep_view(&self) -> StylesView {
        StylesView {
            path: self.path,
            in_cell_formats: self.in_cell_formats,
            fonts: self.fonts.deep_view(),
            fills: self.fills.deep_view(),
            borders: self.borders.deep_view(),
            sides: self.sides.deep_view(),
            formats: self.formats.deep_view(),
            styles: self.styles.deep_view(),
        }
    }
}

/// The state before the first event.
pub open spec fn initial_styles() -> StylesView {
    StylesView {
        path: StylePath::Any,
        in_cell_formats: false,
        fonts: Seq::empty(),
        fills: Seq::empty(),
        borders: Seq::empty(),
        sides: Seq::empty(),
        formats: Seq::empty(),
        styles: Seq::empty(),
    }
}

/// The records with the last one replaced.
pub open spec fn with_last(records: Seq<StyleView>, record: StyleView) -> Seq<StyleView> {
    records.update(records.len() - 1, record)
}

/// The record that an index into a table names: the blank record where no
/// index is given, an error where the index is no number or points past the
/// table.
pub open spec fn table_entry(table: Seq<StyleView>, index: Option<Seq<char>>) -> Result<
    StyleView,
    DecodeError,
> {
    match index {
        None => Ok(blank_style()),
        Some(text) => match number_of(text) {
            None => Err(DecodeError::MalformedXml),
            Some(i) => if i < table.len() {
                Ok(table[i as int])
            } else {
                Err(DecodeError::UnresolvedReference)
            },
        },
    }
}

/// The code that the identifier of a number format names: that of the
/// builtin format, else that of the format which the part declared. An
/// identifier that names neither is an error.
pub open spec fn format_entry(formats: Entries, id: Option<Seq<char>>) -> Result<
    Option<Seq<char>>,
    DecodeError,
> {
    match id {
        None => Ok(None),
        Some(id) => match format_of(id) {
            Some(code) => Ok(Some(code)),
            None => match lookup(formats, id) {
                Some(code) => Ok(Some(code)),
                None => Err(DecodeError::UnresolvedReference),
            },
        },
    }
}

/// The record of a cell format that refers to the given font, fill, border
/// and number format.
pub open spec fn resolved(
    font: StyleView,
    fill: StyleView,
    border: StyleView,
    format: Option<Seq<char>>,
) -> StyleView {
    let record = merged(merged(merged(blank_style(), font), fill), border);
    StyleView { format: or_else(format, record.format), ..record }
}

/// What an `xf` tag inside the cell formats does: it resolves the font,
/// the fill, the border and the number format it refers to, in that order,
/// and adds the record to the table.
pub open spec fn on_xf(state: StylesView, attributes: Seq<AttributeView>, well_formed: bool) -> Result<
    StylesView,
    DecodeError,
> {
    if !well_formed || unreadable(attributes, "fontId"@) || unreadable(attributes, "fillId"@)
        || unreadable(attributes, "borderId"@) || unreadable(attributes, "numFmtId"@) {
        Err(DecodeError::MalformedXml)
    } else {
        match table_entry(state.fonts, value_of(attributes, "fontId"@)) {
            Err(e) => Err(e),
            Ok(font) => match table_entry(state.fills, value_of(attributes, "fillId"@)) {
                Err(e) => Err(e),
                Ok(fill) => match table_entry(state.borders, value_of(attributes, "borderId"@)) {
                    Err(e) => Err(e),
                    Ok(border) => match format_entry(
                        state.formats,
                        value_of(attributes, "numFmtId"@),
                    ) {
                        Err(e) => Err(e),
                        Ok(format) => Ok(
                            StylesView {
                                path: StylePath::Xf,
                                styles: state.styles.push(resolved(font, fill, border, format)),
                                ..state
                            },
                        ),
                    },
                },
            },
        }
    }
}

/// What an `alignment` tag inside a cell format does.
pub open spec fn on_alignment(
    state: StylesView,
    attributes: Seq<AttributeView>,
    well_formed: bool,
) -> Result<StylesView, DecodeError> {
    if !well_formed || unreadable(attributes, "vertical"@) || unreadable(
        attributes,
        "horizontal"@,
    ) || unreadable(attributes, "wrapText"@) || state.styles.len() == 0 {
        Err(DecodeError::MalformedXml)
    } else {
        let last = state.styles.last();
        Ok(
            StylesView {
                styles: with_last(
                    state.styles,
                    StyleView {
                        vertical_align: or_else(
                            value_of(attributes, "vertical"@),
                            last.vertical_align,
                        ),
                        align: or_else(value_of(attributes, "horizontal"@), last.align),
                        wrap_text: if flag_of(attributes, "wrapText"@) == Some(true) {
                            Some("true"@)
                        } else {
                            last.wrap_text
                        },
                        ..last
                    },
                ),
                ..state
            },
        )
    }
}

/// The text of an attribute, or the empty text where the attribute is absent.
pub open spec fn text_of(attributes: Seq<AttributeView>, key: Seq<char>) -> Seq<char> {
    match value_of(attributes, key) {
        Some(text) => text,
        None => Seq::empty(),
    }
}

/// What a `numFmt` tag does: it declares a number format.
pub open spec fn on_number_format(
    state: StylesView,
    attributes: Seq<AttributeView>,
    well_formed: bool,
) -> Result<StylesView, DecodeError> {
    if !well_formed || unreadable(attributes, "formatCode"@) || unreadable(
        attributes,
        "numFmtId"@,
    ) {
        Err(DecodeError::MalformedXml)
    } else {
        Ok(
            StylesView {
                formats: inserted(
                    state.formats,
                    text_of(attributes, "numFmtId"@),
                    text_of(attributes, "formatCode"@),
                ),
                ..state
            },
        )
    }
}

/// The colour that a colour tag states: that of its palette index or that
/// of its ARGB value, whichever of the two attributes is written last. An
/// ARGB value that is none is an error.
pub open spec fn color_of(attributes: Seq<AttributeView>, well_formed: bool) -> Result<
    Option<Seq<char>>,
    DecodeError,
> {
    if !well_formed || unreadable(attributes, "rgb"@) || unreadable(attributes, "indexed"@) {
        Err(DecodeError::MalformedXml)
    } else {
        match value_of(attributes, "rgb"@) {
            Some(argb) => match rgba_of(argb) {
                None => Err(DecodeError::MalformedXml),
                Some(color) => match value_of(attributes, "indexed"@) {
                    Some(index) => if place_of(attributes, "indexed"@) > place_of(
                        attributes,
                        "rgb"@,
                    ) {
                        Ok(Some(indexed_color(index)))
                    } else {
                        Ok(Some(color))
                    },
                    None => Ok(Some(color)),
                },
            },
            None => match value_of(attributes, "indexed"@) {
                Some(index) => Ok(Some(indexed_color(index))),
                None => Ok(None),
            },
        }
    }
}

/// The decoration of a font once a line is added to it: the line where
/// the font had none or had that line, both lines where it had the other.
pub open spec fn decorated(before: Option<Seq<char>>, line: Seq<char>) -> Option<Seq<char>> {
    match before {
        Some(had) => if had == line {
            Some(line)
        } else {
            Some("line-through underline"@)
        },
        None => Some(line),
    }
}

/// What a tag inside a font does to the record of the font. A size that is
/// no number is an error.
pub open spec fn font_property(
    font: StyleView,
    name: Seq<char>,
    attributes: Seq<AttributeView>,
    well_formed: bool,
) -> Result<StyleView, DecodeError> {
    if name == "sz"@ {
        if !well_formed || unreadable(attributes, "val"@) || ill_sized(attributes, "val"@) {
            Err(DecodeError::MalformedXml)
        } else {
            Ok(StyleView { font_size: or_else(value_of(attributes, "val"@), font.font_size), ..font })
        }
    } else if name == "name"@ {
        if !well_formed || unreadable(attributes, "val"@) {
            Err(DecodeError::MalformedXml)
        } else {
            Ok(
                StyleView {
                    font_family: or_else(value_of(attributes, "val"@), font.font_family),
                    ..font
                },
            )
        }
    } else if name == "color"@ {
        match color_of(attributes, well_formed) {
            Err(e) => Err(e),
            Ok(color) => Ok(StyleView { color: or_else(color, font.color), ..font }),
        }
    } else if name == "b"@ {
        Ok(StyleView { font_weight: Some("bold"@), ..font })
    } else if name == "i"@ {
        Ok(StyleView { font_style: Some("italic"@), ..font })
    } else if name == "u"@ {
        Ok(StyleView { text_decoration: decorated(font.text_decoration, "underline"@), ..font })
    } else if name == "strike"@ {
        Ok(
            StyleView {
                text_decoration: decorated(font.text_decoration, "line-through"@),
                ..font
            },
        )
    } else {
        Ok(font)
    }
}

/// The side that a tag inside a border names, if it names one.
pub open spec fn side_of(name: Seq<char>) -> Option<BorderPosition> {
    if name == "left"@ {
        Some(BorderPosition::Left)
    } else if name == "right"@ {
        Some(BorderPosition::Right)
    } else if name == "bottom"@ {
        Some(BorderPosition::Bottom)
    } else if name == "top"@ {
        Some(BorderPosition::Top)
    } else {
        None
    }
}

/// What a tag inside a border does to the sides read so far: a side tag
/// adds a side, in black and with the line style its keyword names, and a
/// colour tag colours the side added last.
pub open spec fn border_property(
    sides: Seq<BorderView>,
    name: Seq<char>,
    attributes: Seq<AttributeView>,
    well_formed: bool,
) -> Result<Seq<BorderView>, DecodeError> {
    match side_of(name) {
        Some(position) => if !well_formed || unreadable(attributes, "style"@) {
            Err(DecodeError::MalformedXml)
        } else {
            Ok(
                sides.push(
                    BorderView {
                        position,
                        style: match value_of(attributes, "style"@) {
                            Some(keyword) => style_of_keyword(keyword),
                            None => None,
                        },
                        color: "#000000"@,
                    },
                ),
            )
        },
        None => if name == "color"@ {
            if sides.len() == 0 {
                Err(DecodeError::MalformedXml)
            } else {
                match color_of(attributes, well_formed) {
                    Err(e) => Err(e),
                    Ok(Some(color)) => Ok(
                        sides.update(sides.len() - 1, BorderView { color, ..sides.last() }),
                    ),
                    Ok(None) => Ok(sides),
                }
            }
        } else {
            Ok(sides)
        },
    }
}

/// What a tag inside a fill does to the record of the fill.
pub open spec fn fill_property(
    fill: StyleView,
    name: Seq<char>,
    attributes: Seq<AttributeView>,
    well_formed: bool,
) -> Result<StyleView, DecodeError> {
    if name == "fgColor"@ {
        match color_of(attributes, well_formed) {
            Err(e) => Err(e),
            Ok(color) => Ok(StyleView { background: or_else(color, fill.background), ..fill }),
        }
    } else {
        Ok(fill)
    }
}

/// A border record with the property of one side set, where the side has a
/// line style.
pub open spec fn with_side(record: StyleView, side: BorderView) -> StyleView {
    if side_value(side).len() == 0 {
        record
    } else {
        match side.position {
            BorderPosition::Left => StyleView { border_left: Some(side_value(side)), ..record },
            BorderPosition::Right => StyleView { border_right: Some(side_value(side)), ..record },
            BorderPosition::Top => StyleView { border_top: Some(side_value(side)), ..record },
            BorderPosition::Bottom => StyleView {
                border_bottom: Some(side_value(side)),
                ..record
            },
        }
    }
}

/// The record of a border with the given sides. Where a side occurs twice
/// with a line style, the first occurrence counts.
pub open spec fn border_record(sides: Seq<BorderView>) -> StyleView
    decreases sides.len(),
{
    if sides.len() == 0 {
        blank_style()
    } else {
        with_side(border_record(sides.drop_first()), sides[0])
    }
}

/// What a start tag does.
pub open spec fn on_style_start(
    state: StylesView,
    name: Seq<char>,
    attributes: Seq<AttributeView>,
    well_formed: bool,
) -> Result<StylesView, DecodeError> {
    if state.in_cell_formats && name == "xf"@ {
        on_xf(state, attributes, well_formed)
    } else if state.path == StylePath::Xf && state.in_cell_formats && name == "alignment"@ {
        on_alignment(state, attributes, well_formed)
    } else if name == "numFmt"@ {
        on_number_format(state, attributes, well_formed)
    } else if name == "font"@ {
        Ok(StylesView { path: StylePath::Font, fonts: state.fonts.push(blank_style()), ..state })
    } else if name == "fill"@ {
        Ok(StylesView { path: StylePath::Fill, fills: state.fills.push(blank_style()), ..state })
    } else if name == "border"@ {
        Ok(StylesView { path: StylePath::Border, ..state })
    } else if name == "cellXfs"@ {
        Ok(StylesView { in_cell_formats: true, ..state })
    } else if state.path == StylePath::Font {
        if state.fonts.len() == 0 {
            Err(DecodeError::MalformedXml)
        } else {
            match font_property(state.fonts.last(), name, attributes, well_formed) {
                Err(e) => Err(e),
                Ok(font) => Ok(StylesView { fonts: with_last(state.fonts, font), ..state }),
            }
        }
    } else if state.path == StylePath::Border {
        match border_property(state.sides, name, attributes, well_formed) {
            Err(e) => Err(e),
            Ok(sides) => Ok(StylesView { sides, ..state }),
        }
    } else if state.path == StylePath::Fill {
        if state.fills.len() == 0 {
            Err(DecodeError::MalformedXml)
        } else {
            match fill_property(state.fills.last(), name, attributes, well_formed) {
                Err(e) => Err(e),
                Ok(fill) => Ok(StylesView { fills: with_last(state.fills, fill), ..state }),
            }
        }
    } else {
        Ok(state)
    }
}

/// What an end tag does. Nothing is given back at the end tag of the style
/// sheet, where the table is complete.
pub open spec fn on_style_end(state: StylesView, name: Seq<char>) -> Option<StylesView> {
    if name == "cellXfs"@ {
        Some(StylesView { in_cell_formats: false, ..state })
    } else if state.in_cell_formats && name == "xf"@ {
        Some(StylesView { path: StylePath::Any, ..state })
    } else if name == "font"@ || name == "fill"@ {
        Some(StylesView { path: StylePath::Any, ..state })
    } else if name == "border"@ {
        Some(
            StylesView {
                path: StylePath::Any,
                borders: state.borders.push(border_record(state.sides)),
                sides: Seq::empty(),
                ..state
            },
        )
    } else if name == "styleSheet"@ {
        None
    } else {
        Some(state)
    }
}

/// What one event leads to.
pub enum StyleStep {
    /// The decoder goes on in a new state.
    Continue(StylesView),
    /// The style sheet has ended; the table it holds.
    Done(Seq<StyleView>),
    /// The part cannot be decoded.
    Fail(DecodeError),
}

/// What one event does to the decoder.
pub open spec fn style_step(state: StylesView, event: EventView) -> StyleStep {
    match event {
        EventView::Start { name, attributes, well_formed } => match on_style_start(
            state,
            name,
            attributes,
            well_formed,
        ) {
            Ok(next) => StyleStep::Continue(next),
            Err(e) => StyleStep::Fail(e),
        },
        EventView::End { name } => match on_style_end(state, name) {
            Some(next) => StyleStep::Continue(next),
            None => StyleStep::Done(state.styles),
        },
        EventView::Eof => StyleStep::Fail(DecodeError::MalformedXml),
        EventView::Failed => StyleStep::Fail(DecodeError::MalformedXml),
        _ => StyleStep::Continue(state),
    }
}

/// What the events of a styles part decode to, from a given state on: the
/// table at the end tag of the style sheet, or the first error. Events that
/// end before that tag are an error.
pub open spec fn styles_from(state: StylesView, events: Seq<EventView>) -> Result<
    Seq<StyleView>,
    DecodeError,
>
    decreases events.len(),
{
    if events.len() == 0 {
        Err(DecodeError::MalformedXml)
    } else {
        match style_step(state, events[0]) {
            StyleStep::Continue(next) => styles_from(next, events.drop_first()),
            StyleStep::Done(styles) => Ok(styles),
            StyleStep::Fail(e) => Err(e),
        }
    }
}

/// What the events of a styles part decode to.
pub open spec fn styles_of(events: Seq<EventView>) -> Result<Seq<StyleView>, DecodeError> {
    styles_from(initial_styles(), events)
}

/// How the state after a tag relates to the state before it.
pub open spec fn style_follows(
    outcome: Result<(), DecodeError>,
    after: StylesView,
    expected: Result<StylesView, DecodeError>,
) -> bool {
    match expected {
        Ok(state) => outcome is Ok && after == state,
        Err(e) => outcome == Err::<(), DecodeError>(e),
    }
}

/// How a record after a tag relates to the record before it.
pub open spec fn record_follows(
    outcome: Result<(), DecodeError>,
    after: StyleView,
    expected: Result<StyleView, DecodeError>,
) -> bool {
    match expected {
        Ok(record) => outcome is Ok && after == record,
        Err(e) => outcome == Err::<(), DecodeError>(e),
    }
}

/// Reads the colour that a colour tag states.
fn read_color(attributes: &Vec<XmlAttribute>, well_formed: bool) -> (color: Result<
    Option<String>,
    DecodeError,
>)
    ensures
        decoded(color) == color_of(attributes.deep_view(), well_formed),
{
    let argb = read_attribute(attributes, well_formed, "rgb")?;
    let index = read_attribute(attributes, well_formed, "indexed")?;
    let color = match argb {
        Some(argb) => match xlsx_rgb(argb.as_str()) {
            None => {
                return Err(DecodeError::MalformedXml);
            },
            Some(color) => color,
        },
        None => {
            return match index {
                Some(index) => Ok(Some(get_indexed_color(index.as_str()))),
                None => Ok(None),
            };
        },
    };
    let index = match index {
        Some(index) => index,
        None => {
            return Ok(Some(color));
        },
    };
    match (find_place(attributes, "indexed"), find_place(attributes, "rgb")) {
        (Some(later), Some(earlier)) => if later > earlier {
            Ok(Some(get_indexed_color(index.as_str())))
        } else {
            Ok(Some(color))
        },
        _ => Ok(Some(color)),
    }
}

/// Sets a property where a text is given for it.
fn set_text(property: &mut Option<String>, text: Option<&String>)
    ensures
        final(property).deep_view() == or_else(text.deep_view(), old(property).deep_view()),
{
    if let Some(text) = text {
        *property = Some(text.clone());
    }
}

/// Adds a line to the decoration of a font.
fn decorate(decoration: &mut Option<String>, line: &str)
    ensures
        final(decoration).deep_view() == decorated(old(decoration).deep_view(), line@),
{
    let both = match decoration {
        Some(had) => !same_text(had.as_str(), line),
        None => false,
    };
    if both {
        *decoration = Some(String::from_str("line-through underline"));
    } else {
        *decoration = Some(String::from_str(line));
    }
}

/// Applies a tag inside a font to the record of the font.
fn font_tag(font: &mut StyleRecord, name: &str, attributes: &Vec<XmlAttribute>, well_formed: bool) -> (outcome:
    Result<(), DecodeError>)
    ensures
        record_follows(
            outcome,
            final(font).deep_view(),
            font_property(old(font).deep_view(), name@, attributes.deep_view(), well_formed),
        ),
{
    if same_text(name, "sz") {
        let size = read_size(attributes, well_formed, "val")?;
        set_text(&mut font.font_size, size);
    } else if same_text(name, "name") {
        let family = read_attribute(attributes, well_formed, "val")?;
        set_text(&mut font.font_family, family);
    } else if same_text(name, "color") {
        let color = read_color(attributes, well_formed)?;
        if color.is_some() {
            font.color = color;
        }
    } else if same_text(name, "b") {
        font.font_weight = Some(String::from_str("bold"));
    } else if same_text(name, "i") {
        font.font_style = Some(String::from_str("italic"));
    } else if same_text(name, "u") {
        decorate(&mut font.text_decoration, "underline");
    } else if same_text(name, "strike") {
        decorate(&mut font.text_decoration, "line-through");
    }
    Ok(())
}

/// Applies a tag inside a fill to the record of the fill.
fn fill_tag(fill: &mut StyleRecord, name: &str, attributes: &Vec<XmlAttribute>, well_formed: bool) -> (outcome:
    Result<(), DecodeError>)
    ensures
        record_follows(
            outcome,
            final(fill).deep_view(),
            fill_property(old(fill).deep_view(), name@, attributes.deep_view(), well_formed),
        ),
{
    if same_text(name, "fgColor") {
        let color = read_color(attributes, well_formed)?;
        if color.is_some() {
            fill.background = color;
        }
    }
    Ok(())
}

/// The side that a tag inside a border names.
fn read_side(name: &str) -> (position: Option<BorderPosition>)
    ensures
        position == side_of(name@),
{
    if same_text(name, "left") {
        Some(BorderPosition::Left)
    } else if same_text(name, "right") {
        Some(BorderPosition::Right)
    } else if same_text(name, "bottom") {
        Some(BorderPosition::Bottom)
    } else if same_text(name, "top") {
        Some(BorderPosition::Top)
    } else {
        None
    }
}

/// Applies a tag inside a border to the sides read so far.
fn border_tag(sides: &mut Vec<Border>, name: &str, attributes: &Vec<XmlAttribute>, well_formed: bool) -> (outcome:
    Result<(), DecodeError>)
    ensures
        match border_property(old(sides).deep_view(), name@, attributes.deep_view(), well_formed) {
            Ok(after) => outcome is Ok && final(sides).deep_view() == after,
            Err(e) => outcome == Err::<(), DecodeError>(e),
        },
{
    let ghost before = sides.deep_view();
    match read_side(name) {
        Some(position) => {
            let keyword = read_attribute(attributes, well_formed, "style")?;
            let mut side = Border::new(position);
            if let Some(keyword) = keyword {
                side.set_style(keyword.clone());
            }
            sides.push(side);
            assert(sides.deep_view() =~= before.push(side.deep_view()));
            Ok(())
        },
        None => {
            if !same_text(name, "color") {
                return Ok(());
            }
            let n = sides.len();
            if n == 0 {
                return Err(DecodeError::MalformedXml);
            }
            if let Some(color) = read_color(attributes, well_formed)? {
                sides[n - 1].set_color(color);
                assert(sides.deep_view() =~= before.update(
                    n - 1,
                    BorderView { color: color@, ..before.last() },
                ));
            }
            Ok(())
        },
    }
}

/// The record of a border with the given sides. The sides are used up.
fn close_border(sides: &mut Vec<Border>) -> (record: StyleRecord)
    ensures
        record.deep_view() == border_record(old(sides).deep_view()),
        final(sides).deep_view() == Seq::<BorderView>::empty(),
{
    let ghost all = sides.deep_view();
    let mut record = StyleRecord::new();
    assert(all.skip(all.len() as int) =~= Seq::empty());
    assert(all.take(all.len() as int) == all);
    while sides.len() > 0
        invariant
            sides@.len() <= all.len(),
            sides.deep_view() == all.take(sides@.len() as int),
            record.deep_view() == border_record(all.skip(sides@.len() as int)),
        decreases sides@.len(),
    {
        let ghost prior = sides.deep_view();
        let ghost k = sides@.len() - 1;
        let ghost raw = sides@;
        let side = sides.pop().unwrap();
        assert(sides.deep_view() =~= prior.drop_last());
        assert(prior.drop_last() =~= all.take(k));
        assert(side == raw[k]);
        assert(prior[k] == raw[k].deep_view());
        assert(side.deep_view() == all[k]);
        assert(all.skip(k)[0] == all[k]);
        assert(all.skip(k).drop_first() == all.skip(k + 1));
        let position = side.side();
        let (_, value) = side.get_computed_style();
        if !value.as_str().is_empty() {
            match position {
                BorderPosition::Left => {
                    record.border_left = Some(value);
                },
                BorderPosition::Right => {
                    record.border_right = Some(value);
                },
                BorderPosition::Top => {
                    record.border_top = Some(value);
                },
                BorderPosition::Bottom => {
                    record.border_bottom = Some(value);
                },
            }
        }
    }
    assert(all.skip(0) == all);
    assert(sides.deep_view() =~= Seq::<BorderView>::empty());
    record
}

/// Looks up the record that an index into a table names.
fn read_entry<'a>(table: &'a Vec<StyleRecord>, index: Option<&String>) -> (entry: Result<
    Option<&'a StyleRecord>,
    DecodeError,
>)
    ensures
        match table_entry(table.deep_view(), index.deep_view()) {
            Ok(record) => match entry {
                Ok(Some(found)) => found.deep_view() == record,
                Ok(None) => record == blank_style(),
                Err(_) => false,
            },
            Err(e) => entry == Err::<Option<&StyleRecord>, DecodeError>(e),
        },
{
    let text = match index {
        Some(text) => text,
        None => {
            return Ok(None);
        },
    };
    let i = match parse_number(text.as_str()) {
        Some(i) => i as usize,
        None => {
            return Err(DecodeError::MalformedXml);
        },
    };
    if i < table.len() {
        Ok(Some(&table[i]))
    } else {
        Err(DecodeError::UnresolvedReference)
    }
}

/// Merges the record that an index into a table names into `record`.
fn merge_entry(record: &mut StyleRecord, table: &Vec<StyleRecord>, index: Option<&String>) -> (outcome:
    Result<(), DecodeError>)
    ensures
        match table_entry(table.deep_view(), index.deep_view()) {
            Ok(entry) => outcome is Ok && final(record).deep_view() == merged(
                old(record).deep_view(),
                entry,
            ),
            Err(e) => outcome == Err::<(), DecodeError>(e),
        },
{
    match read_entry(table, index)? {
        Some(entry) => {
            record.merge(entry);
        },
        None => {
            assert(merged(record.deep_view(), blank_style()) == record.deep_view());
        },
    }
    Ok(())
}

/// Looks up the code that the identifier of a number format names.
fn read_format(formats: &TextMap, id: Option<&String>) -> (code: Result<Option<String>, DecodeError>)
    ensures
        decoded(code) == format_entry(formats.deep_view(), id.deep_view()),
{
    let id = match id {
        Some(id) => id,
        None => {
            return Ok(None);
        },
    };
    match get_format(id.as_str()) {
        Some(code) => Ok(Some(code)),
        None => match formats.get(id.as_str()) {
            Some(code) => Ok(Some(code.clone())),
            None => Err(DecodeError::UnresolvedReference),
        },
    }
}

impl StylesReader {
    /// The decoder before the first event.
    pub fn new() -> (reader: StylesReader)
        ensures
            reader.deep_view() == initial_styles(),
    {
        let reader = StylesReader {
            path: StylePath::Any,
            in_cell_formats: false,
            fonts: Vec::new(),
            fills: Vec::new(),
            borders: Vec::new(),
            sides: Vec::new(),
            formats: TextMap::new(),
            styles: Vec::new(),
        };
        assert(reader.fonts.deep_view() =~= Seq::empty());
        assert(reader.fills.deep_view() =~= Seq::empty());
        assert(reader.borders.deep_view() =~= Seq::empty());
        assert(reader.sides.deep_view() =~= Seq::empty());
        assert(reader.styles.deep_view() =~= Seq::empty());
        reader
    }

    fn xf_tag(&mut self, attributes: &Vec<XmlAttribute>, well_formed: bool) -> (outcome: Result<
        (),
        DecodeError,
    >)
        ensures
            style_follows(
                outcome,
                final(self).deep_view(),
                on_xf(old(self).deep_view(), attributes.deep_view(), well_formed),
            ),
    {
        let font_id = read_attribute(attributes, well_formed, "fontId")?;
        let fill_id = read_attribute(attributes, well_formed, "fillId")?;
        let border_id = read_attribute(attributes, well_formed, "borderId")?;
        let format_id = read_attribute(attributes, well_formed, "numFmtId")?;
        let mut record = StyleRecord::new();
        merge_entry(&mut record, &self.fonts, font_id)?;
        merge_entry(&mut record, &self.fills, fill_id)?;
        merge_entry(&mut record, &self.borders, border_id)?;
        let format = read_format(&self.formats, format_id)?;
        set_text(&mut record.format, format.as_ref());
        let ghost prior = self.styles.deep_view();
        self.styles.push(record);
        assert(self.styles.deep_view() =~= prior.push(record.deep_view()));
        self.path = StylePath::Xf;
        Ok(())
    }

    fn alignment_tag(&mut self, attributes: &Vec<XmlAttribute>, well_formed: bool) -> (outcome:
        Result<(), DecodeError>)
        ensures
            style_follows(
                outcome,
                final(self).deep_view(),
                on_alignment(old(self).deep_view(), attributes.deep_view(), well_formed),
            ),
    {
        let vertical = read_attribute(attributes, well_formed, "vertical")?;
        let horizontal = read_attribute(attributes, well_formed, "horizontal")?;
        let wrap = read_flag(attributes, well_formed, "wrapText")?;
        let n = self.styles.len();
        if n == 0 {
            return Err(DecodeError::MalformedXml);
        }
        let ghost before = self.styles.deep_view();
        set_text(&mut self.styles[n - 1].vertical_align, vertical);
        set_text(&mut self.styles[n - 1].align, horizontal);
        if let Some(true) = wrap {
            self.styles[n - 1].wrap_text = Some(String::from_str("true"));
        }
        assert(self.styles.deep_view() =~= with_last(before, self.styles@[n - 1].deep_view()));
        Ok(())
    }

    fn number_format_tag(&mut self, attributes: &Vec<XmlAttribute>, well_formed: bool) -> (outcome:
        Result<(), DecodeError>)
        ensures
            style_follows(
                outcome,
                final(self).deep_view(),
                on_number_format(old(self).deep_view(), attributes.deep_view(), well_formed),
            ),
    {
        let code = match read_attribute(attributes, well_formed, "formatCode")? {
            Some(code) => code.clone(),
            None => String::new(),
        };
        let id = match read_attribute(attributes, well_formed, "numFmtId")? {
            Some(id) => id.clone(),
            None => String::new(),
        };
        self.formats.insert(id, code);
        Ok(())
    }

    fn start_tag(&mut self, name: &str, attributes: &Vec<XmlAttribute>, well_formed: bool) -> (outcome:
        Result<(), DecodeError>)
        ensures
            style_follows(
                outcome,
                final(self).deep_view(),
                on_style_start(old(self).deep_view(), name@, attributes.deep_view(), well_formed),
            ),
    {
        if self.in_cell_formats && same_text(name, "xf") {
            self.xf_tag(attributes, well_formed)
        } else if self.path == StylePath::Xf && self.in_cell_formats && same_text(
            name,
            "alignment",
        ) {
            self.alignment_tag(attributes, well_formed)
        } else if same_text(name, "numFmt") {
            self.number_format_tag(attributes, well_formed)
        } else if same_text(name, "font") {
            let ghost prior = self.fonts.deep_view();
            self.fonts.push(StyleRecord::new());
            assert(self.fonts.deep_view() =~= prior.push(blank_style()));
            self.path = StylePath::Font;
            Ok(())
        } else if same_text(name, "fill") {
            let ghost prior = self.fills.deep_view();
            self.fills.push(StyleRecord::new());
            assert(self.fills.deep_view() =~= prior.push(blank_style()));
            self.path = StylePath::Fill;
            Ok(())
        } else if same_text(name, "border") {
            self.path = StylePath::Border;
            Ok(())
        } else if same_text(name, "cellXfs") {
            self.in_cell_formats = true;
            Ok(())
        } else if self.path == StylePath::Font {
            let n = self.fonts.len();
            if n == 0 {
                return Err(DecodeError::MalformedXml);
            }
            let ghost before = self.fonts.deep_view();
            font_tag(&mut self.fonts[n - 1], name, attributes, well_formed)?;
            assert(self.fonts.deep_view() =~= with_last(before, self.fonts@[n - 1].deep_view()));
            Ok(())
        } else if self.path == StylePath::Border {
            border_tag(&mut self.sides, name, attributes, well_formed)
        } else if self.path == StylePath::Fill {
            let n = self.fills.len();
            if n == 0 {
                return Err(DecodeError::MalformedXml);
            }
            let ghost before = self.fills.deep_view();
            fill_tag(&mut self.fills[n - 1], name, attributes, well_formed)?;
            assert(self.fills.deep_view() =~= with_last(before, self.fills@[n - 1].deep_view()));
            Ok(())
        } else {
            Ok(())
        }
    }

    fn end_tag(&mut self, name: &str) -> (done: bool)
        ensures
            match on_style_end(old(self).deep_view(), name@) {
                Some(state) => !done && final(self).deep_view() == state,
                None => done && final(self).deep_view() == old(self).deep_view(),
            },
    {
        if same_text(name, "cellXfs") {
            self.in_cell_formats = false;
            false
        } else if self.in_cell_formats && same_text(name, "xf") {
            self.path = StylePath::Any;
            false
        } else if same_text(name, "font") || same_text(name, "fill") {
            self.path = StylePath::Any;
            false
        } else if same_text(name, "border") {
            self.path = StylePath::Any;
            let record = close_border(&mut self.sides);
            let ghost prior = self.borders.deep_view();
            self.borders.push(record);
            assert(self.borders.deep_view() =~= prior.push(record.deep_view()));
            false
        } else {
            same_text(name, "styleSheet")
        }
    }

    /// Hands the decoder the next event of the part. Gives `true` once
    /// the style sheet has ended: `styles` then holds the table, and no
    /// further event is to be fed. After an error the decoder is of no
    /// further use.
    pub fn feed(&mut self, event: &XmlEvent) -> (progress: Result<bool, DecodeError>)
        ensures
            match style_step(old(self).deep_view(), event.deep_view()) {
                StyleStep::Continue(state) => progress == Ok::<bool, DecodeError>(false)
                    && final(self).deep_view() == state,
                StyleStep::Done(styles) => progress == Ok::<bool, DecodeError>(true)
                    && final(self).styles.deep_view() == styles,
                StyleStep::Fail(e) => progress == Err::<bool, DecodeError>(e),
            },
    {
        match event {
            XmlEvent::Start { name, attributes, well_formed } => {
                self.start_tag(name.as_str(), attributes, *well_formed)?;
                Ok(false)
            },
            XmlEvent::End { name } => Ok(self.end_tag(name.as_str())),
            XmlEvent::Eof => Err(DecodeError::MalformedXml),
            XmlEvent::Failed => Err(DecodeError::MalformedXml),
            _ => Ok(false),
        }
    }
}

/// Decodes the events of a styles part into the style table: one record
/// per cell format, in the order of the part.
pub fn decode_styles(events: &Vec<XmlEvent>) -> (styles: Result<Vec<StyleRecord>, DecodeError>)
    ensures
        decoded(styles) == styles_of(events.deep_view()),
        styles matches Ok(table) ==> font_sizes_are_numbers(table.deep_view()),
{
    let ghost all = events.deep_view();
    proof {
        lemma_decoded_font_sizes_are_numbers(initial_styles(), all);
    }
    let mut reader = StylesReader::new();
    let mut i: usize = 0;
    assert(all.skip(0) == all);
    while i < events.len()
        invariant
            i <= events@.len(),
            all == events.deep_view(),
            styles_of(all) == styles_from(reader.deep_view(), all.skip(i as int)),
            styles_of(all) matches Ok(whole) ==> font_sizes_are_numbers(whole),
        decreases events@.len() - i,
    {
        assert(all.skip(i as int)[0] == events@[i as int].deep_view());
        assert(all.skip(i as int).drop_first() == all.skip(i + 1));
        match reader.feed(&events[i]) {
            Err(e) => {
                return Err(e);
            },
            Ok(true) => {
                return Ok(reader.styles);
            },
            Ok(false) => {},
        }
        i = i + 1;
    }
    Err(DecodeError::MalformedXml)
}

/// Decodes the events that a reader still holds into the style table, as
/// `decode_styles` does.
pub fn decode_styles_from(events: &mut EventReader) -> (styles: Result<
    Vec<StyleRecord>,
    DecodeError,
>)
    ensures
        decoded(styles) == styles_of(old(events).remaining()),
        styles matches Ok(table) ==> font_sizes_are_numbers(table.deep_view()),
{
    let ghost all = events.remaining();
    proof {
        lemma_decoded_font_sizes_are_numbers(initial_styles(), all);
    }
    let mut reader = StylesReader::new();
    loop
        invariant
            all == old(events).remaining(),
            styles_of(all) == styles_from(reader.deep_view(), events.remaining()),
            styles_of(all) matches Ok(whole) ==> font_sizes_are_numbers(whole),
        decreases events.remaining().len(),
    {
        let event = events.next();
        match reader.feed(&event) {
            Err(e) => {
                return Err(e);
            },
            Ok(true) => {
                return Ok(reader.styles);
            },
            Ok(false) => {},
        }
    }
}

} // verus!
