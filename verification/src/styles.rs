//! The style table of a workbook: one record per cell format, each merged
//! from the font, the fill, the border and the number format it refers to.

use vstd::prelude::*;

verus! {

/// The style of a cell format: the properties that are set.
#[derive(Clone, Debug, PartialEq, Eq)]
pub struct StyleRecord {
    /// The colour of the text.
    pub color: Option<String>,
    pub font_family: Option<String>,
    /// The size of the font in points, as the text of a number that the
    /// part states.
    pub font_size: Option<String>,
    pub font_weight: Option<String>,
    pub font_style: Option<String>,
    pub text_decoration: Option<String>,
    /// The colour of the fill.
    pub background: Option<String>,
    pub border_left: Option<String>,
    pub border_right: Option<String>,
    pub border_top: Option<String>,
    pub border_bottom: Option<String>,
    /// The code of the number format.
    pub format: Option<String>,
    pub vertical_align: Option<String>,
    pub align: Option<String>,
    pub wrap_text: Option<String>,
}

/// What a `StyleRecord` holds.
pub struct StyleView {
    pub color: Option<Seq<char>>,
    pub font_family: Option<Seq<char>>,
    pub font_size: Option<Seq<char>>,
    pub font_weight: Option<Seq<char>>,
    pub font_style: Option<Seq<char>>,
    pub text_decoration: Option<Seq<char>>,
    pub background: Option<Seq<char>>,
    pub border_left: Option<Seq<char>>,
    pub border_right: Option<Seq<char>>,
    pub border_top: Option<Seq<char>>,
    pub border_bottom: Option<Seq<char>>,
    pub format: Option<Seq<char>>,
    pub vertical_align: Option<Seq<char>>,
    pub align: Option<Seq<char>>,
    pub wrap_text: Option<Seq<char>>,
}

impl DeepView for StyleRecord {
    type V = StyleView;

    open spec fn deep_view(&self) -> StyleView {
        StyleView {
            color: self.color.deep_view(),
            font_family: self.font_family.deep_view(),
            font_size: self.font_size.deep_view(),
            font_weight: self.font_weight.deep_view(),
            font_style: self.font_style.deep_view(),
            text_decoration: self.text_decoration.deep_view(),
            background: self.background.deep_view(),
            border_left: self.border_left.deep_view(),
            border_right: self.border_right.deep_view(),
            border_top: self.border_top.deep_view(),
            border_bottom: self.border_bottom.deep_view(),
            format: self.format.deep_view(),
            vertical_align: self.vertical_align.deep_view(),
            align: self.align.deep_view(),
            wrap_text: self.wrap_text.deep_view(),
        }
    }
}

/// A record without properties.
pub open spec fn blank_style() -> StyleView {
    StyleView {
        color: None,
        font_family: None,
        font_size: None,
        font_weight: None,
        font_style: None,
        text_decoration: None,
        background: None,
        border_left: None,
        border_right: None,
        border_top: None,
        border_bottom: None,
        format: None,
        vertical_align: None,
        align: None,
        wrap_text: None,
    }
}

/// `over` where it is set, `under` where it is not.
pub open spec fn or_else(over: Option<Seq<char>>, under: Option<Seq<char>>) -> Option<Seq<char>> {
    match over {
        Some(value) => Some(value),
        None => under,
    }
}

/// The record `base` with every property that `over` sets taken from `over`.
pub open spec fn merged(base: StyleView, over: StyleView) -> StyleView {
    StyleView {
        color: or_else(over.color, base.color),
        font_family: or_else(over.font_family, base.font_family),
        font_size: or_else(over.font_size, base.font_size),
        font_weight: or_else(over.font_weight, base.font_weight),
        font_style: or_else(over.font_style, base.font_style),
        text_decoration: or_else(over.text_decoration, base.text_decoration),
        background: or_else(over.background, base.background),
        border_left: or_else(over.border_left, base.border_left),
        border_right: or_else(over.border_right, base.border_right),
        border_top: or_else(over.border_top, base.border_top),
        border_bottom: or_else(over.border_bottom, base.border_bottom),
        format: or_else(over.format, base.format),
        vertical_align: or_else(over.vertical_align, base.vertical_align),
        align: or_else(over.align, base.align),
        wrap_text: or_else(over.wrap_text, base.wrap_text),
    }
}

/// Replaces `under` by `over` where `over` is set.
fn take_over(under: &mut Option<String>, over: &Option<String>)
    ensures
        final(under).deep_view() == or_else(over.deep_view(), old(under).deep_view()),
{
    if let Some(value) = over {
        *under = Some(value.clone());
    }
}

impl StyleRecord {
    /// A record without properties.
    pub fn new() -> (record: StyleRecord)
        ensures
            record.deep_view() == blank_style(),
    {
        StyleRecord {
            color: None,
            font_family: None,
            font_size: None,
            font_weight: None,
            font_style: None,
            text_decoration: None,
            background: None,
            border_left: None,
            border_right: None,
            border_top: None,
            border_bottom: None,
            format: None,
            vertical_align: None,
            align: None,
            wrap_text: None,
        }
    }

    /// Takes over every property that `over` sets.
    pub fn merge(&mut self, over: &StyleRecord)
        ensures
            final(self).deep_view() == merged(old(self).deep_view(), over.deep_view()),
    {
        take_over(&mut self.color, &over.color);
        take_over(&mut self.font_family, &over.font_family);
        take_over(&mut self.font_size, &over.font_size);
        take_over(&mut self.font_weight, &over.font_weight);
        take_over(&mut self.font_style, &over.font_style);
        take_over(&mut self.text_decoration, &over.text_decoration);
        take_over(&mut self.background, &over.background);
        take_over(&mut self.border_left, &over.border_left);
        take_over(&mut self.border_right, &over.border_right);
        take_over(&mut self.border_top, &over.border_top);
        take_over(&mut self.border_bottom, &over.border_bottom);
        take_over(&mut self.format, &over.format);
        take_over(&mut self.vertical_align, &over.vertical_align);
        take_over(&mut self.align, &over.align);
        take_over(&mut self.wrap_text, &over.wrap_text);
    }
}

} // verus!
