//! One side of a cell border: its line style and colour, and the style
//! property they render to.

use vstd::prelude::*;
use vstd::string::StringExecFns;
use crate::text::same_text;

verus! {

/// The side of a cell that a border lies on.
#[derive(Clone, Copy, Debug, PartialEq, Eq)]
pub enum BorderPosition {
    Left,
    Right,
    Top,
    Bottom,
}

/// The line styles a border side can have.
#[derive(Clone, Copy, Debug, PartialEq, Eq)]
pub enum BorderStyle {
    Medium,
    Dotted,
    Thick,
    Thin,
    Hair,
    Double,
}

/// The line style that a keyword names, if it names one.
pub open spec fn style_of_keyword(keyword: Seq<char>) -> Option<BorderStyle> {
    if keyword == "thin"@ {
        Some(BorderStyle::Thin)
    } else if keyword == "double"@ {
        Some(BorderStyle::Double)
    } else if keyword == "thick"@ {
        Some(BorderStyle::Thick)
    } else if keyword == "dotted"@ {
        Some(BorderStyle::Dotted)
    } else if keyword == "hair"@ {
        Some(BorderStyle::Hair)
    } else if keyword == "medium"@ {
        Some(BorderStyle::Medium)
    } else {
        None
    }
}

/// The name of the style property of a side.
pub open spec fn property_name(position: BorderPosition) -> Seq<char> {
    match position {
        BorderPosition::Left => "borderLeft"@,
        BorderPosition::Right => "borderRight"@,
        BorderPosition::Top => "borderTop"@,
        BorderPosition::Bottom => "borderBottom"@,
    }
}

/// How thick a line of the given style is drawn.
pub open spec fn line_width(style: BorderStyle) -> Seq<char> {
    match style {
        BorderStyle::Thin => "0.5px"@,
        BorderStyle::Thick => "2px"@,
        _ => "1px"@,
    }
}

/// How a line of the given style is drawn.
pub open spec fn line_kind(style: BorderStyle) -> Seq<char> {
    match style {
        BorderStyle::Dotted => "dotted"@,
        BorderStyle::Double => "double"@,
        BorderStyle::Hair => "dashed"@,
        _ => "solid"@,
    }
}

/// The value of the style property: width, kind and colour, a space between them.
pub open spec fn line_text(style: BorderStyle, color: Seq<char>) -> Seq<char> {
    line_width(style) + " "@ + line_kind(style) + " "@ + color
}

/// What a `Border` holds.
pub struct BorderView {
    pub position: BorderPosition,
    pub style: Option<BorderStyle>,
    pub color: Seq<char>,
}

/// The value of the style property of a side, or empty where no line style
/// was set.
pub open spec fn side_value(side: BorderView) -> Seq<char> {
    match side.style {
        Some(style) => line_text(style, side.color),
        None => Seq::<char>::empty(),
    }
}

/// One side of a border. It has no line style until a keyword sets one.
pub struct Border {
    position: BorderPosition,
    style: Option<BorderStyle>,
    color: String,
}

impl DeepView for Border {
    type V = BorderView;

    open spec fn deep_view(&self) -> BorderView {
        BorderView { position: self.position(), style: self.style(), color: self.color() }
    }
}

impl Border {
    /// The side this border lies on.
    pub closed spec fn position(&self) -> BorderPosition {
        self.position
    }

    /// The line style, once one was set.
    pub closed spec fn style(&self) -> Option<BorderStyle> {
        self.style
    }

    /// The colour of the line.
    pub closed spec fn color(&self) -> Seq<char> {
        self.color@
    }

    /// The name of the style property: that of the side, or empty where no
    /// line style was set.
    pub open spec fn computed_name(&self) -> Seq<char> {
        match self.style() {
            Some(_) => property_name(self.position()),
            None => Seq::<char>::empty(),
        }
    }

    /// The value of the style property, or empty where no line style was set.
    pub open spec fn computed_value(&self) -> Seq<char> {
        match self.style() {
            Some(style) => line_text(style, self.color()),
            None => Seq::<char>::empty(),
        }
    }

    /// The side this border lies on.
    pub fn side(&self) -> (position: BorderPosition)
        ensures
            position == self.position(),
    {
        self.position
    }

    /// A border side without a line style, in black.
    pub fn new(position: BorderPosition) -> (border: Border)
        ensures
            border.position() == position,
            border.style() is None,
            border.color() == "#000000"@,
    {
        Border { position, color: String::from_str("#000000"), style: None }
    }

    /// Sets the line style that `style` names. A keyword that names none
    /// leaves the border as it was.
    pub fn set_style(&mut self, style: String)
        ensures
            final(self).style() == match style_of_keyword(style@) {
                Some(named) => Some(named),
                None => old(self).style(),
            },
            final(self).position() == old(self).position(),
            final(self).color() == old(self).color(),
    {
        let keyword = style.as_str();
        if same_text(keyword, "thin") {
            self.style = Some(BorderStyle::Thin);
        } else if same_text(keyword, "double") {
            self.style = Some(BorderStyle::Double);
        } else if same_text(keyword, "thick") {
            self.style = Some(BorderStyle::Thick);
        } else if same_text(keyword, "dotted") {
            self.style = Some(BorderStyle::Dotted);
        } else if same_text(keyword, "hair") {
            self.style = Some(BorderStyle::Hair);
        } else if same_text(keyword, "medium") {
            self.style = Some(BorderStyle::Medium);
        }
    }

    /// Sets the colour of the line.
    pub fn set_color(&mut self, color: String)
        ensures
            final(self).color() == color@,
            final(self).position() == old(self).position(),
            final(self).style() == old(self).style(),
    {
        self.color = color;
    }

    /// The style property of this side, as a (name, value) pair. Both are
    /// empty where no line style was set.
    pub fn get_computed_style(self) -> (property: (String, String))
        ensures
            property.0@ == self.computed_name(),
            property.1@ == self.computed_value(),
    {
        let style = match self.style {
            Some(style) => style,
            None => {
                return (String::new(), String::new());
            },
        };
        let name = match self.position {
            BorderPosition::Left => String::from_str("borderLeft"),
            BorderPosition::Right => String::from_str("borderRight"),
            BorderPosition::Top => String::from_str("borderTop"),
            BorderPosition::Bottom => String::from_str("borderBottom"),
        };
        let kind = match style {
            BorderStyle::Dotted => "dotted",
            BorderStyle::Double => "double",
            BorderStyle::Hair => "dashed",
            _ => "solid",
        };
        let mut value = match style {
            BorderStyle::Thin => String::from_str("0.5px"),
            BorderStyle::Thick => String::from_str("2px"),
            _ => String::from_str("1px"),
        };
        value.append(" ");
        value.append(kind);
        value.append(" ");
        value.append(self.color.as_str());
        (name, value)
    }
}

/// What a side renders to: a thin line is half a pixel wide, a thick line
/// two pixels, and a medium line one pixel, each solid and followed by the
/// colour. A side without a line style renders to an empty name and an
/// empty value.
pub proof fn lemma_rendered_lines(side: Border)
    ensures
        side.style() == Some(BorderStyle::Thin) ==> side.computed_value() == "0.5px solid "@
            + side.color(),
        side.style() == Some(BorderStyle::Thick) ==> side.computed_value() == "2px solid "@
            + side.color(),
        side.style() == Some(BorderStyle::Medium) ==> side.computed_value() == "1px solid "@
            + side.color(),
        side.style() is None ==> side.computed_value().len() == 0 && side.computed_name().len()
            == 0,
{
    reveal_strlit("0.5px");
    reveal_strlit("2px");
    reveal_strlit("1px");
    reveal_strlit(" ");
    reveal_strlit("solid");
    reveal_strlit("0.5px solid ");
    reveal_strlit("2px solid ");
    reveal_strlit("1px solid ");
    assert("0.5px"@ + " "@ + "solid"@ + " "@ =~= "0.5px solid "@);
    assert("2px"@ + " "@ + "solid"@ + " "@ =~= "2px solid "@);
    assert("1px"@ + " "@ + "solid"@ + " "@ =~= "1px solid "@);
}

} // verus!
