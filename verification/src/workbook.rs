//! The decoders of the relationship parts and of the workbook part: which
//! identifier names which target, and which sheet lies in which part.

use vstd::prelude::*;
use vstd::string::StringExecFns;
use crate::dict::{inserted, lookup, Entries, TextMap};
use crate::error::{decoded, DecodeError};
use crate::text::{
    begins_with, chars_of, same_text, starts_with, string_of, strip_bounds, without_prefixes,
    without_suffixes,
};
use crate::xml::{
    read_attribute, unreadable, value_of, AttributeView, EventReader, EventView, XmlAttribute,
    XmlEvent,
};

verus! {

/// The text of an attribute, or the empty text where the attribute is absent.
pub open spec fn text_or_empty(attributes: Seq<AttributeView>, key: Seq<char>) -> Seq<char> {
    match value_of(attributes, key) {
        Some(text) => text,
        None => Seq::empty(),
    }
}

/// What a `Relationship` tag does to the relationships read so far. Read
/// strictly, as for the workbook, the tag must be well formed and every
/// relationship is kept. Read leniently, as for a sheet, attributes that
/// cannot be told apart are passed over, and a relationship is kept where
/// both its identifier and its target are given.
pub open spec fn on_relationship(
    map: Entries,
    attributes: Seq<AttributeView>,
    well_formed: bool,
    lenient: bool,
) -> Result<Entries, DecodeError> {
    if (!lenient && !well_formed) || unreadable(attributes, "Id"@) || unreadable(
        attributes,
        "Target"@,
    ) {
        Err(DecodeError::MalformedXml)
    } else {
        let id = text_or_empty(attributes, "Id"@);
        let target = text_or_empty(attributes, "Target"@);
        if lenient && (id.len() == 0 || target.len() == 0) {
            Ok(map)
        } else {
            Ok(inserted(map, id, target))
        }
    }
}

/// What one event leads to while a map is read.
pub enum MapStep {
    /// The decoder goes on with the given entries.
    Continue(Entries),
    /// The part has ended; the entries it holds.
    Done(Entries),
    /// The part cannot be decoded.
    Fail(DecodeError),
}

/// What one event does to the relationships read so far.
pub open spec fn relationship_step(map: Entries, event: EventView, lenient: bool) -> MapStep {
    match event {
        EventView::Start { name, attributes, well_formed } => if name == "Relationship"@ {
            match on_relationship(map, attributes, well_formed, lenient) {
                Ok(next) => MapStep::Continue(next),
                Err(e) => MapStep::Fail(e),
            }
        } else {
            MapStep::Continue(map)
        },
        EventView::End { name } => if name == "Relationships"@ {
            MapStep::Done(map)
        } else {
            MapStep::Continue(map)
        },
        EventView::Eof => MapStep::Fail(DecodeError::MalformedXml),
        EventView::Failed => MapStep::Fail(DecodeError::MalformedXml),
        _ => MapStep::Continue(map),
    }
}

/// What the events of a relationships part decode to, from the
/// relationships read so far on: the relationships at the end tag of the
/// part, or the first error. Events that end before that tag are an error.
pub open spec fn relationships_from(map: Entries, events: Seq<EventView>, lenient: bool) -> Result<
    Entries,
    DecodeError,
>
    decreases events.len(),
{
    if events.len() == 0 {
        Err(DecodeError::MalformedXml)
    } else {
        match relationship_step(map, events[0], lenient) {
            MapStep::Continue(next) => relationships_from(next, events.drop_first(), lenient),
            MapStep::Done(map) => Ok(map),
            MapStep::Fail(e) => Err(e),
        }
    }
}

/// What the events of a relationships part decode to.
pub open spec fn relationships_of(events: Seq<EventView>, lenient: bool) -> Result<
    Entries,
    DecodeError,
> {
    relationships_from(Seq::empty(), events, lenient)
}

/// Applies a `Relationship` tag to the relationships read so far.
fn relationship_tag(
    map: &mut TextMap,
    attributes: &Vec<XmlAttribute>,
    well_formed: bool,
    lenient: bool,
) -> (outcome: Result<(), DecodeError>)
    ensures
        match on_relationship(old(map).deep_view(), attributes.deep_view(), well_formed, lenient) {
            Ok(after) => outcome is Ok && final(map).deep_view() == after,
            Err(e) => outcome == Err::<(), DecodeError>(e),
        },
{
    let id = match read_attribute(attributes, well_formed || lenient, "Id")? {
        Some(id) => id.clone(),
        None => String::new(),
    };
    let target = match read_attribute(attributes, well_formed || lenient, "Target")? {
        Some(target) => target.clone(),
        None => String::new(),
    };
    if lenient && (id.as_str().is_empty() || target.as_str().is_empty()) {
        return Ok(());
    }
    map.insert(id, target);
    Ok(())
}

/// Applies one event to the relationships read so far. Gives `true` once
/// the part has ended.
fn relationship_event(map: &mut TextMap, event: &XmlEvent, lenient: bool) -> (progress: Result<
    bool,
    DecodeError,
>)
    ensures
        match relationship_step(old(map).deep_view(), event.deep_view(), lenient) {
            MapStep::Continue(next) => progress == Ok::<bool, DecodeError>(false)
                && final(map).deep_view() == next,
            MapStep::Done(done) => progress == Ok::<bool, DecodeError>(true)
                && final(map).deep_view() == done,
            MapStep::Fail(e) => progress == Err::<bool, DecodeError>(e),
        },
{
    match event {
        XmlEvent::Start { name, attributes, well_formed } => {
            if same_text(name.as_str(), "Relationship") {
                relationship_tag(map, attributes, *well_formed, lenient)?;
            }
            Ok(false)
        },
        XmlEvent::End { name } => Ok(same_text(name.as_str(), "Relationships")),
        XmlEvent::Eof => Err(DecodeError::MalformedXml),
        XmlEvent::Failed => Err(DecodeError::MalformedXml),
        _ => Ok(false),
    }
}

/// Decodes the events of a relationships part into a map from identifier
/// to target. `lenient` says whether the part is read as that of a sheet.
pub fn decode_relationships(events: &Vec<XmlEvent>, lenient: bool) -> (map: Result<
    TextMap,
    DecodeError,
>)
    ensures
        decoded(map) == relationships_of(events.deep_view(), lenient),
{
    let ghost all = events.deep_view();
    let mut map = TextMap::new();
    let mut i: usize = 0;
    assert(all.skip(0) == all);
    while i < events.len()
        invariant
            i <= events@.len(),
            all == events.deep_view(),
            relationships_of(all, lenient) == relationships_from(
                map.deep_view(),
                all.skip(i as int),
                lenient,
            ),
        decreases events@.len() - i,
    {
        assert(all.skip(i as int)[0] == events@[i as int].deep_view());
        assert(all.skip(i as int).drop_first() == all.skip(i + 1));
        if relationship_event(&mut map, &events[i], lenient)? {
            return Ok(map);
        }
        i = i + 1;
    }
    Err(DecodeError::MalformedXml)
}

/// Decodes the events that a reader still holds into a map from
/// identifier to target, as `decode_relationships` does.
pub fn decode_relationships_from(events: &mut EventReader, lenient: bool) -> (map: Result<
    TextMap,
    DecodeError,
>)
    ensures
        decoded(map) == relationships_of(old(events).remaining(), lenient),
{
    let ghost all = events.remaining();
    let mut map = TextMap::new();
    loop
        invariant
            all == old(events).remaining(),
            relationships_of(all, lenient) == relationships_from(
                map.deep_view(),
                events.remaining(),
                lenient,
            ),
        decreases events.remaining().len(),
    {
        let event = events.next();
        if relationship_event(&mut map, &event, lenient)? {
            return Ok(map);
        }
    }
}

/// The path of the part that a target of the workbook names: a target that
/// begins at the root of the archive loses its slash, and a target that is
/// relative to the workbook gets the directory of the workbook before it.
pub open spec fn part_path(target: Seq<char>) -> Seq<char> {
    if starts_with(target, "/xl/"@) {
        target.skip(1)
    } else if starts_with(target, "xl/"@) {
        target
    } else {
        "xl/"@ + target
    }
}

/// The path of the part that a target of the workbook names.
pub fn normalize_target(target: &str) -> (path: String)
    ensures
        path@ == part_path(target@),
{
    let chars = chars_of(target);
    let n = chars.len();
    assert(chars@.subrange(0, n as int) == chars@);
    let rooted = chars_of("/xl/");
    let local = chars_of("xl/");
    if begins_with(&chars, 0, n, &rooted) {
        proof {
            reveal_strlit("/xl/");
        }
        assert(chars@.subrange(1, n as int) == chars@.skip(1));
        string_of(&chars, 1, n)
    } else if begins_with(&chars, 0, n, &local) {
        target.to_owned()
    } else {
        let mut path = String::from_str("xl/");
        path.append(target);
        path
    }
}

/// The path of the relationships part of the sheet that lies in the part
/// of the given path.
pub open spec fn relationships_path(sheet_path: Seq<char>) -> Seq<char> {
    "xl/worksheets/_rels/"@ + without_suffixes(
        without_prefixes(sheet_path, "xl/worksheets/"@),
        ".xml"@,
    ) + ".xml.rels"@
}

/// The path of the relationships part of a sheet.
pub fn sheet_relationships_path(sheet_path: &str) -> (path: String)
    ensures
        path@ == relationships_path(sheet_path@),
{
    let chars = chars_of(sheet_path);
    let prefix = chars_of("xl/worksheets/");
    let suffix = chars_of(".xml");
    let (from, to) = strip_bounds(&chars, &prefix, &suffix);
    let stem = string_of(&chars, from, to);
    let mut path = String::from_str("xl/worksheets/_rels/");
    path.append(stem.as_str());
    path.append(".xml.rels");
    path
}

/// The sheets of a workbook: (name, path of the part) pairs in the order
/// the workbook declares them.
pub type Sheets = Seq<(Seq<char>, Seq<char>)>;

/// What a `sheet` tag does: the sheet joins the list, with the part that
/// its relationship names. A relationship that the workbook does not have
/// is an error.
pub open spec fn on_sheet(
    sheets: Sheets,
    attributes: Seq<AttributeView>,
    well_formed: bool,
    relationships: Entries,
) -> Result<Sheets, DecodeError> {
    if !well_formed || unreadable(attributes, "name"@) || unreadable(attributes, "r:id"@) {
        Err(DecodeError::MalformedXml)
    } else {
        match value_of(attributes, "r:id"@) {
            None => Ok(sheets.push((text_or_empty(attributes, "name"@), Seq::empty()))),
            Some(id) => match lookup(relationships, id) {
                None => Err(DecodeError::UnresolvedReference),
                Some(target) => Ok(
                    sheets.push((text_or_empty(attributes, "name"@), part_path(target))),
                ),
            },
        }
    }
}

/// What one event leads to while the sheets of a workbook are read.
pub enum SheetsStep {
    /// The decoder goes on with the given sheets.
    Continue(Sheets),
    /// The workbook has ended; the sheets it declares.
    Done(Sheets),
    /// The part cannot be decoded.
    Fail(DecodeError),
}

/// What one event does to the sheets read so far.
pub open spec fn sheets_step(sheets: Sheets, event: EventView, relationships: Entries) -> SheetsStep {
    match event {
        EventView::Start { name, attributes, well_formed } => if name == "sheet"@ {
            match on_sheet(sheets, attributes, well_formed, relationships) {
                Ok(next) => SheetsStep::Continue(next),
                Err(e) => SheetsStep::Fail(e),
            }
        } else {
            SheetsStep::Continue(sheets)
        },
        EventView::End { name } => if name == "workbook"@ {
            SheetsStep::Done(sheets)
        } else {
            SheetsStep::Continue(sheets)
        },
        EventView::Eof => SheetsStep::Fail(DecodeError::MalformedXml),
        EventView::Failed => SheetsStep::Fail(DecodeError::MalformedXml),
        _ => SheetsStep::Continue(sheets),
    }
}

/// What the events of a workbook part decode to, from the sheets read so
/// far on: the sheets at the end tag of the workbook, or the first error.
/// Events that end before that tag are an error.
pub open spec fn sheets_from(sheets: Sheets, events: Seq<EventView>, relationships: Entries) -> Result<
    Sheets,
    DecodeError,
>
    decreases events.len(),
{
    if events.len() == 0 {
        Err(DecodeError::MalformedXml)
    } else {
        match sheets_step(sheets, events[0], relationships) {
            SheetsStep::Continue(next) => sheets_from(next, events.drop_first(), relationships),
            SheetsStep::Done(sheets) => Ok(sheets),
            SheetsStep::Fail(e) => Err(e),
        }
    }
}

/// What the events of a workbook part decode to.
pub open spec fn sheets_of(events: Seq<EventView>, relationships: Entries) -> Result<
    Sheets,
    DecodeError,
> {
    sheets_from(Seq::empty(), events, relationships)
}

/// Applies a `sheet` tag to the sheets read so far.
fn sheet_tag(
    sheets: &mut Vec<(String, String)>,
    attributes: &Vec<XmlAttribute>,
    well_formed: bool,
    relationships: &TextMap,
) -> (outcome: Result<(), DecodeError>)
    ensures
        match on_sheet(
            old(sheets).deep_view(),
            attributes.deep_view(),
            well_formed,
            relationships.deep_view(),
        ) {
            Ok(after) => outcome is Ok && final(sheets).deep_view() == after,
            Err(e) => outcome == Err::<(), DecodeError>(e),
        },
{
    let name = match read_attribute(attributes, well_formed, "name")? {
        Some(name) => name.clone(),
        None => String::new(),
    };
    let path = match read_attribute(attributes, well_formed, "r:id")? {
        None => String::new(),
        Some(id) => match relationships.get(id.as_str()) {
            None => {
                return Err(DecodeError::UnresolvedReference);
            },
            Some(target) => normalize_target(target.as_str()),
        },
    };
    let ghost prior = sheets.deep_view();
    sheets.push((name, path));
    assert(sheets.deep_view() =~= prior.push((name@, path@)));
    Ok(())
}

/// Applies one event to the sheets read so far. Gives `true` once the
/// workbook has ended.
fn sheets_event(sheets: &mut Vec<(String, String)>, event: &XmlEvent, relationships: &TextMap) -> (progress:
    Result<bool, DecodeError>)
    ensures
        match sheets_step(old(sheets).deep_view(), event.deep_view(), relationships.deep_view()) {
            SheetsStep::Continue(next) => progress == Ok::<bool, DecodeError>(false)
                && final(sheets).deep_view() == next,
            SheetsStep::Done(done) => progress == Ok::<bool, DecodeError>(true)
                && final(sheets).deep_view() == done,
            SheetsStep::Fail(e) => progress == Err::<bool, DecodeError>(e),
        },
{
    match event {
        XmlEvent::Start { name, attributes, well_formed } => {
            if same_text(name.as_str(), "sheet") {
                sheet_tag(sheets, attributes, *well_formed, relationships)?;
            }
            Ok(false)
        },
        XmlEvent::End { name } => Ok(same_text(name.as_str(), "workbook")),
        XmlEvent::Eof => Err(DecodeError::MalformedXml),
        XmlEvent::Failed => Err(DecodeError::MalformedXml),
        _ => Ok(false),
    }
}

/// Decodes the events of a workbook part into the list of its sheets.
/// `relationships` holds the relationships of the workbook.
pub fn decode_workbook(events: &Vec<XmlEvent>, relationships: &TextMap) -> (sheets: Result<
    Vec<(String, String)>,
    DecodeError,
>)
    ensures
        decoded(sheets) == sheets_of(events.deep_view(), relationships.deep_view()),
{
    let ghost all = events.deep_view();
    let mut sheets: Vec<(String, String)> = Vec::new();
    let mut i: usize = 0;
    assert(all.skip(0) == all);
    assert(sheets.deep_view() =~= Seq::empty());
    while i < events.len()
        invariant
            i <= events@.len(),
            all == events.deep_view(),
            sheets_of(all, relationships.deep_view()) == sheets_from(
                sheets.deep_view(),
                all.skip(i as int),
                relationships.deep_view(),
            ),
        decreases events@.len() - i,
    {
        assert(all.skip(i as int)[0] == events@[i as int].deep_view());
        assert(all.skip(i as int).drop_first() == all.skip(i + 1));
        if sheets_event(&mut sheets, &events[i], relationships)? {
            return Ok(sheets);
        }
        i = i + 1;
    }
    Err(DecodeError::MalformedXml)
}

/// Decodes the events that a reader still holds into the list of the
/// sheets of a workbook, as `decode_workbook` does.
pub fn decode_workbook_from(events: &mut EventReader, relationships: &TextMap) -> (sheets: Result<
    Vec<(String, String)>,
    DecodeError,
>)
    ensures
        decoded(sheets) == sheets_of(old(events).remaining(), relationships.deep_view()),
{
    let ghost all = events.remaining();
    let mut sheets: Vec<(String, String)> = Vec::new();
    assert(sheets.deep_view() =~= Seq::empty());
    loop
        invariant
            all == old(events).remaining(),
            sheets_of(all, relationships.deep_view()) == sheets_from(
                sheets.deep_view(),
                events.remaining(),
                relationships.deep_view(),
            ),
        decreases events.remaining().len(),
    {
        let event = events.next();
        if sheets_event(&mut sheets, &event, relationships)? {
            return Ok(sheets);
        }
    }
}

} // verus!
