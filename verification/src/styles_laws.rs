//! What holds of every style table that the decoder of a styles part gives.

use vstd::prelude::*;
use crate::border::BorderView;
use crate::styles::StyleView;
use crate::styles_reader::{
    border_record, on_style_end, on_style_start, style_step, styles_from, StyleStep, StylesView,
};
use crate::text::is_size;
use crate::xml::{AttributeView, EventView};

verus! {

/// Whether the font size of every record, where one is set, is the text of
/// a number.
pub open spec fn font_sizes_are_numbers(records: Seq<StyleView>) -> bool {
    forall|i: int| 0 <= i < records.len() ==> is_size((#[trigger] records[i]).font_size)
}

/// Whether every font size that the decoder holds is the text of a number.
pub open spec fn holds_font_sizes(state: StylesView) -> bool {
    &&& font_sizes_are_numbers(state.fonts)
    &&& font_sizes_are_numbers(state.fills)
    &&& font_sizes_are_numbers(state.borders)
    &&& font_sizes_are_numbers(state.styles)
}

/// The record of a border sets no font size.
pub proof fn lemma_border_record_has_no_font_size(sides: Seq<BorderView>)
    ensures
        border_record(sides).font_size is None,
    decreases sides.len(),
{
    if sides.len() > 0 {
        lemma_border_record_has_no_font_size(sides.drop_first());
    }
}

/// A start tag leaves every font size the text of a number.
pub proof fn lemma_start_keeps_font_sizes(
    state: StylesView,
    name: Seq<char>,
    attributes: Seq<AttributeView>,
    well_formed: bool,
)
    requires
        holds_font_sizes(state),
    ensures
        on_style_start(state, name, attributes, well_formed) matches Ok(next) ==> holds_font_sizes(
            next,
        ),
{
    if let Ok(next) = on_style_start(state, name, attributes, well_formed) {
        assert forall|i: int| 0 <= i < next.fonts.len() implies is_size(
            (#[trigger] next.fonts[i]).font_size,
        ) by {
            if i < state.fonts.len() {
                assert(is_size(state.fonts[i].font_size));
            }
        }
        assert forall|i: int| 0 <= i < next.fills.len() implies is_size(
            (#[trigger] next.fills[i]).font_size,
        ) by {
            if i < state.fills.len() {
                assert(is_size(state.fills[i].font_size));
            }
        }
        assert forall|i: int| 0 <= i < next.styles.len() implies is_size(
            (#[trigger] next.styles[i]).font_size,
        ) by {
            if i < state.styles.len() {
                assert(is_size(state.styles[i].font_size));
            }
        }
        assert(next.borders == state.borders);
    }
}

/// An end tag leaves every font size the text of a number.
pub proof fn lemma_end_keeps_font_sizes(state: StylesView, name: Seq<char>)
    requires
        holds_font_sizes(state),
    ensures
        on_style_end(state, name) matches Some(next) ==> holds_font_sizes(next),
{
    if let Some(next) = on_style_end(state, name) {
        lemma_border_record_has_no_font_size(state.sides);
        assert forall|i: int| 0 <= i < next.borders.len() implies is_size(
            (#[trigger] next.borders[i]).font_size,
        ) by {
            if i < state.borders.len() {
                assert(is_size(state.borders[i].font_size));
            }
        }
    }
}

/// In every style table that the events of a styles part decode to, the
/// font size of a record, where one is set, is the text of a number.
pub proof fn lemma_decoded_font_sizes_are_numbers(state: StylesView, events: Seq<EventView>)
    requires
        holds_font_sizes(state),
    ensures
        styles_from(state, events) matches Ok(styles) ==> font_sizes_are_numbers(styles),
    decreases events.len(),
{
    if events.len() > 0 {
        match events[0] {
            EventView::Start { name, attributes, well_formed } => {
                lemma_start_keeps_font_sizes(state, name, attributes, well_formed);
            },
            EventView::End { name } => {
                lemma_end_keeps_font_sizes(state, name);
            },
            _ => {},
        }
        match style_step(state, events[0]) {
            StyleStep::Continue(next) => {
                lemma_decoded_font_sizes_are_numbers(next, events.drop_first());
            },
            _ => {},
        }
    }
}

} // verus!
