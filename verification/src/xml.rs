//! The events of an XML part: what the tokenizer hands out, turned into
//! plain values that the decoders read.

use vstd::prelude::*;
use vstd::string::StringSliceAdditionalSpecFns;
use vstd::utf8::{decode_utf8, valid_utf8};
use quick_xml::events::Event;
use quick_xml::reader::Reader;
use crate::error::{decoded, DecodeError};
use crate::text::{float_text, is_float_text, number_of, parse_number, same_text};

verus! {

/// One attribute of a start tag.
#[derive(Debug, PartialEq, Eq)]
pub struct XmlAttribute {
    /// The key as written.
    pub key: String,
    /// The value with its character references resolved, or nothing where
    /// the value is no text or holds a reference that cannot be resolved.
    pub value: Option<String>,
}

/// What an `XmlAttribute` holds, its texts as sequences of characters.
pub struct AttributeView {
    pub key: Seq<char>,
    pub value: Option<Seq<char>>,
}

impl DeepView for XmlAttribute {
    type V = AttributeView;

    open spec fn deep_view(&self) -> AttributeView {
        AttributeView { key: self.key@, value: self.value.deep_view() }
    }
}

/// One event of a part.
#[derive(Debug, PartialEq, Eq)]
pub enum XmlEvent {
    /// A start tag. An empty element gives a start tag and an end tag.
    Start {
        name: String,
        /// The attributes that could be told apart, in the order written.
        attributes: Vec<XmlAttribute>,
        /// Whether every attribute of the tag could be told apart.
        well_formed: bool,
    },
    /// An end tag.
    End { name: String },
    /// Character data between tags, with its character references resolved,
    /// or nothing where that cannot be done.
    Text { text: Option<String> },
    /// The part has ended.
    Eof,
    /// The tokenizer could not go on.
    Failed,
    /// Anything else: a comment, a declaration, a processing instruction,
    /// a CDATA section, or a tag whose name is no text.
    Other,
}

/// What an `XmlEvent` holds, its texts as sequences of characters.
pub enum EventView {
    Start { name: Seq<char>, attributes: Seq<AttributeView>, well_formed: bool },
    End { name: Seq<char> },
    Text { text: Option<Seq<char>> },
    Eof,
    Failed,
    Other,
}

impl DeepView for XmlEvent {
    type V = EventView;

    open spec fn deep_view(&self) -> EventView {
        match self {
            XmlEvent::Start { name, attributes, well_formed } => EventView::Start {
                name: name@,
                attributes: attributes.deep_view(),
                well_formed: *well_formed,
            },
            XmlEvent::End { name } => EventView::End { name: name@ },
            XmlEvent::Text { text } => EventView::Text { text: text.deep_view() },
            XmlEvent::Eof => EventView::Eof,
            XmlEvent::Failed => EventView::Failed,
            XmlEvent::Other => EventView::Other,
        }
    }
}

/// Whether an event ends a part: nothing follows it.
pub open spec fn is_final(event: EventView) -> bool {
    event is Eof || event is Failed
}

/// The value of the last attribute with the given key: nothing where no
/// attribute has the key, and an empty option where the one that has it
/// could not be turned into text.
pub open spec fn attribute(attributes: Seq<AttributeView>, key: Seq<char>) -> Option<
    Option<Seq<char>>,
>
    decreases attributes.len(),
{
    if attributes.len() == 0 {
        None
    } else if attributes.last().key == key {
        Some(attributes.last().value)
    } else {
        attribute(attributes.drop_last(), key)
    }
}

/// The value an attribute must have where a tag is read strictly: an error
/// where the tag was not well formed or the value could not be turned into
/// text, nothing where the attribute is absent.
pub open spec fn strict_attribute(
    attributes: Seq<AttributeView>,
    well_formed: bool,
    key: Seq<char>,
) -> Result<Option<Seq<char>>, DecodeError> {
    if !well_formed {
        Err(DecodeError::MalformedXml)
    } else {
        match attribute(attributes, key) {
            None => Ok(None),
            Some(None) => Err(DecodeError::MalformedXml),
            Some(Some(value)) => Ok(Some(value)),
        }
    }
}

/// Whether the attribute with the given key is there and could not be
/// turned into text.
pub open spec fn unreadable(attributes: Seq<AttributeView>, key: Seq<char>) -> bool {
    attribute(attributes, key) == Some(None::<Seq<char>>)
}

/// The text of the attribute with the given key, where it is there and is text.
pub open spec fn value_of(attributes: Seq<AttributeView>, key: Seq<char>) -> Option<Seq<char>> {
    match attribute(attributes, key) {
        Some(Some(value)) => Some(value),
        _ => None,
    }
}

/// The flag that the attribute with the given key sets, where it is there.
pub open spec fn flag_of(attributes: Seq<AttributeView>, key: Seq<char>) -> Option<bool> {
    match value_of(attributes, key) {
        Some(value) => Some(is_truthy(value)),
        None => None,
    }
}

/// The number that the attribute with the given key states; 0 where the
/// attribute is absent, nothing where its text is no number.
pub open spec fn count_of(attributes: Seq<AttributeView>, key: Seq<char>) -> Option<u32> {
    match value_of(attributes, key) {
        Some(value) => number_of(value),
        None => Some(0),
    }
}

/// Whether the attribute with the given key is there and its text is no
/// floating-point number.
pub open spec fn ill_sized(attributes: Seq<AttributeView>, key: Seq<char>) -> bool {
    match value_of(attributes, key) {
        Some(value) => !is_float_text(value),
        None => false,
    }
}

/// Whether a flag value switches the flag on.
pub open spec fn is_truthy(value: Seq<char>) -> bool {
    value == "1"@ || value == "true"@
}

/// Whether a flag value switches the flag on.
pub fn truthy(value: &str) -> (on: bool)
    ensures
        on == is_truthy(value@),
{
    same_text(value, "1") || same_text(value, "true")
}

/// The place of the last attribute with the given key among the
/// attributes of its tag, or -1 where no attribute has the key.
pub open spec fn place_of(attributes: Seq<AttributeView>, key: Seq<char>) -> int
    decreases attributes.len(),
{
    if attributes.len() == 0 {
        -1
    } else if attributes.last().key == key {
        attributes.len() - 1
    } else {
        place_of(attributes.drop_last(), key)
    }
}

/// Looks up the place of the last attribute with the given key.
pub fn find_place(attributes: &Vec<XmlAttribute>, key: &str) -> (found: Option<usize>)
    ensures
        match found {
            Some(at) => at < attributes@.len() && place_of(attributes.deep_view(), key@) == at
                && attribute(attributes.deep_view(), key@) == Some(
                attributes@[at as int].value.deep_view(),
            ),
            None => place_of(attributes.deep_view(), key@) == -1 && attribute(
                attributes.deep_view(),
                key@,
            ) is None,
        },
{
    let ghost all = attributes.deep_view();
    let mut i: usize = attributes.len();
    assert(all.take(i as int) == all);
    while i > 0
        invariant
            i <= attributes@.len(),
            all == attributes.deep_view(),
            attribute(all, key@) == attribute(all.take(i as int), key@),
            place_of(all, key@) == place_of(all.take(i as int), key@),
        decreases i,
    {
        i = i - 1;
        let ghost upto = all.take(i + 1);
        assert(upto.last() == attributes@[i as int].deep_view());
        assert(upto.drop_last() == all.take(i as int));
        if same_text(attributes[i].key.as_str(), key) {
            return Some(i);
        }
    }
    assert(all.take(0).len() == 0);
    None
}

/// Looks up the last attribute with the given key.
pub fn find_attribute<'a>(attributes: &'a Vec<XmlAttribute>, key: &str) -> (found: Option<
    &'a XmlAttribute,
>)
    ensures
        match found {
            Some(a) => attribute(attributes.deep_view(), key@) == Some(a.value.deep_view()),
            None => attribute(attributes.deep_view(), key@) is None,
        },
{
    match find_place(attributes, key) {
        Some(at) => Some(&attributes[at]),
        None => None,
    }
}

/// Reads an attribute of a tag that is read strictly.
pub fn read_attribute<'a>(
    attributes: &'a Vec<XmlAttribute>,
    well_formed: bool,
    key: &str,
) -> (value: Result<Option<&'a String>, DecodeError>)
    ensures
        decoded(value) == strict_attribute(attributes.deep_view(), well_formed, key@),
        value is Err <==> !well_formed || unreadable(attributes.deep_view(), key@),
        value matches Err(e) ==> e == DecodeError::MalformedXml,
        value matches Ok(v) ==> v.deep_view() == value_of(attributes.deep_view(), key@),
{
    if !well_formed {
        return Err(DecodeError::MalformedXml);
    }
    match find_attribute(attributes, key) {
        None => Ok(None),
        Some(a) => match &a.value {
            None => Err(DecodeError::MalformedXml),
            Some(v) => Ok(Some(v)),
        },
    }
}

/// Reads a flag from an attribute of a tag that is read strictly.
pub fn read_flag(attributes: &Vec<XmlAttribute>, well_formed: bool, key: &str) -> (flag: Result<
    Option<bool>,
    DecodeError,
>)
    ensures
        flag is Err <==> !well_formed || unreadable(attributes.deep_view(), key@),
        flag matches Err(e) ==> e == DecodeError::MalformedXml,
        flag matches Ok(f) ==> f == flag_of(attributes.deep_view(), key@),
{
    match read_attribute(attributes, well_formed, key)? {
        Some(value) => Ok(Some(truthy(value.as_str()))),
        None => Ok(None),
    }
}

/// Reads a number from an attribute of a tag that is read strictly. An
/// absent attribute gives 0.
pub fn read_count(attributes: &Vec<XmlAttribute>, well_formed: bool, key: &str) -> (count: Result<
    u32,
    DecodeError,
>)
    ensures
        count is Err <==> !well_formed || unreadable(attributes.deep_view(), key@) || count_of(
            attributes.deep_view(),
            key@,
        ) is None,
        count matches Err(e) ==> e == DecodeError::MalformedXml,
        count matches Ok(n) ==> count_of(attributes.deep_view(), key@) == Some(n),
{
    match read_attribute(attributes, well_formed, key)? {
        Some(value) => match parse_number(value.as_str()) {
            Some(n) => Ok(n),
            None => Err(DecodeError::MalformedXml),
        },
        None => Ok(0),
    }
}

/// Reads a size from an attribute of a tag that is read strictly: the text
/// of a floating-point number.
pub fn read_size<'a>(attributes: &'a Vec<XmlAttribute>, well_formed: bool, key: &str) -> (size:
    Result<Option<&'a String>, DecodeError>)
    ensures
        size is Err <==> !well_formed || unreadable(attributes.deep_view(), key@) || ill_sized(
            attributes.deep_view(),
            key@,
        ),
        size matches Err(e) ==> e == DecodeError::MalformedXml,
        size matches Ok(v) ==> v.deep_view() == value_of(attributes.deep_view(), key@),
{
    match read_attribute(attributes, well_formed, key)? {
        Some(value) => if float_text(value.as_str()) {
            Ok(Some(value))
        } else {
            Err(DecodeError::MalformedXml)
        },
        None => Ok(None),
    }
}

/// A copy of a text that may be absent.
pub fn copy_text(text: &Option<String>) -> (copy: Option<String>)
    ensures
        copy.deep_view() == text.deep_view(),
{
    match text {
        Some(t) => Some(t.clone()),
        None => None,
    }
}

/// A copy of a text that a reference may point to.
pub fn own_text(text: Option<&String>) -> (copy: Option<String>)
    ensures
        copy.deep_view() == text.deep_view(),
{
    match text {
        Some(t) => Some(t.clone()),
        None => None,
    }
}

/// The tokenizer over the bytes of one part.
#[verifier::external_type_specification]
#[verifier::external_body]
#[verifier::reject_recursive_types(R)]
pub struct ExReader<R>(Reader<R>);

/// One attribute as the tokenizer hands it out: the bytes of its key and of
/// its value.
pub struct RawAttribute {
    pub key: Vec<u8>,
    pub value: Vec<u8>,
}

/// What a `RawAttribute` holds.
pub struct RawAttributeView {
    pub key: Seq<u8>,
    pub value: Seq<u8>,
}

impl DeepView for RawAttribute {
    type V = RawAttributeView;

    open spec fn deep_view(&self) -> RawAttributeView {
        RawAttributeView { key: self.key@, value: self.value@ }
    }
}

/// One event as the tokenizer hands it out, its texts still in bytes.
pub enum RawEvent {
    /// A start tag: its name, and its attributes in the order written, with
    /// nothing in the place of one that cannot be told apart.
    Start { name: Vec<u8>, attributes: Vec<Option<RawAttribute>> },
    End { name: Vec<u8> },
    Text { content: Vec<u8> },
    Eof,
    Skipped,
    Failed,
}

/// What a `RawEvent` holds.
pub enum RawEventView {
    Start { name: Seq<u8>, attributes: Seq<Option<RawAttributeView>> },
    End { name: Seq<u8> },
    Text { content: Seq<u8> },
    Eof,
    Skipped,
    Failed,
}

impl DeepView for RawEvent {
    type V = RawEventView;

    open spec fn deep_view(&self) -> RawEventView {
        match self {
            RawEvent::Start { name, attributes } => RawEventView::Start {
                name: name@,
                attributes: attributes.deep_view(),
            },
            RawEvent::End { name } => RawEventView::End { name: name@ },
            RawEvent::Text { content } => RawEventView::Text { content: content@ },
            RawEvent::Eof => RawEventView::Eof,
            RawEvent::Skipped => RawEventView::Skipped,
            RawEvent::Failed => RawEventView::Failed,
        }
    }
}

/// The events that `quick_xml` hands out for the bytes of a part, one after
/// the other, before it reports the end of the part.
pub uninterp spec fn tokens(data: Seq<u8>) -> Seq<RawEventView>;

/// What a tokenizer holds: the events that it has still to hand out before
/// it reports the end of its part.
pub uninterp spec fn pending(reader: Reader<&[u8]>) -> Seq<RawEventView>;

/// `quick_xml::reader::Reader::from_reader` over the bytes of a part, set so
/// that end names are not checked, text is not trimmed and an empty element
/// is handed out as a start tag followed by an end tag. The contract claims
/// that what the reader holds depends on the bytes alone, and gives it the
/// name `tokens`.
#[verifier::external_body]
fn open_reader<'a>(data: &'a [u8]) -> (reader: Reader<&'a [u8]>)
    ensures
        pending(reader) == tokens(data@),
{
    let mut reader = Reader::from_reader(data);
    reader.check_end_names(false).trim_text(false).check_comments(false).expand_empty_elements(true);
    reader
}

/// `quick_xml::reader::Reader::read_event`: the next event of the part, its
/// names, attributes and text copied out as bytes. The contract claims that
/// the reader hands out the events it holds one by one and in order, and
/// that it reports the end of the part, and holds nothing afterwards, once
/// it holds no event.
#[verifier::external_body]
fn next_raw_event<'a>(reader: &mut Reader<&'a [u8]>) -> (event: RawEvent)
    ensures
        pending(*old(reader)).len() > 0 ==> event.deep_view() == pending(*old(reader))[0]
            && pending(*final(reader)) == pending(*old(reader)).drop_first(),
        pending(*old(reader)).len() == 0 ==> event is Eof && pending(*final(reader)).len() == 0,
{
    match reader.read_event() {
        Ok(Event::Start(e)) => RawEvent::Start {
            name: e.name().as_ref().to_vec(),
            attributes: e.attributes().map(|a| a.ok().map(|a| RawAttribute { key: a.key.as_ref().to_vec(), value: a.value.to_vec() })).collect(),
        },
        Ok(Event::End(e)) => RawEvent::End { name: e.name().as_ref().to_vec() },
        Ok(Event::Text(e)) => RawEvent::Text { content: e.to_vec() },
        Ok(Event::Eof) => RawEvent::Eof,
        Ok(_) => RawEvent::Skipped,
        Err(_) => RawEvent::Failed,
    }
}

/// What `quick_xml::escape::unescape` makes of a text: the text with each
/// character reference replaced by what it stands for, or nothing where a
/// reference cannot be resolved.
pub uninterp spec fn unescaped(raw: Seq<char>) -> Option<Seq<char>>;

/// `quick_xml::escape::unescape`, its error dropped. The contract claims
/// that what comes back depends on the text alone, and gives it the name
/// `unescaped`.
#[verifier::external_body]
fn unescape(raw: &str) -> (text: Option<String>)
    ensures
        text.deep_view() == unescaped(raw@),
{
    quick_xml::escape::unescape(raw).ok().map(|t| t.into_owned())
}

/// `core::str::from_utf8`, its error dropped. The contract claims that
/// text comes back where the bytes are UTF-8 and only there, and that the
/// bytes are the UTF-8 encoding of that text.
#[verifier::external_body]
fn utf8_text<'a>(bytes: &'a [u8]) -> (text: Option<&'a str>)
    ensures
        text is Some <==> valid_utf8(bytes@),
        text matches Some(s) ==> s.spec_bytes() == bytes@,
{
    core::str::from_utf8(bytes).ok()
}

/// The text that bytes of a part stand for: read as UTF-8, then with the
/// character references resolved.
pub open spec fn text_of_bytes(bytes: Seq<u8>) -> Option<Seq<char>> {
    if valid_utf8(bytes) {
        unescaped(decode_utf8(bytes))
    } else {
        None
    }
}

/// The name that bytes of a part stand for, read as UTF-8.
pub open spec fn name_of_bytes(bytes: Seq<u8>) -> Option<Seq<char>> {
    if valid_utf8(bytes) {
        Some(decode_utf8(bytes))
    } else {
        None
    }
}

/// The attributes of a tag as text: those that could be told apart and
/// whose key is text, in the order written.
pub open spec fn attributes_of(raw: Seq<Option<RawAttributeView>>) -> Seq<AttributeView>
    decreases raw.len(),
{
    if raw.len() == 0 {
        Seq::empty()
    } else {
        let before = attributes_of(raw.drop_last());
        match raw.last() {
            Some(a) => match name_of_bytes(a.key) {
                Some(key) => before.push(AttributeView { key, value: text_of_bytes(a.value) }),
                None => before,
            },
            None => before,
        }
    }
}

/// Whether every attribute of a tag could be told apart.
pub open spec fn all_told_apart(raw: Seq<Option<RawAttributeView>>) -> bool {
    forall|i: int| 0 <= i < raw.len() ==> (#[trigger] raw[i]) is Some
}

/// The event that the decoders read for an event of the tokenizer. A tag
/// whose name is no text names nothing that a decoder looks for, and counts
/// as another event; so does an attribute whose key is no text, which is
/// left out.
pub open spec fn event_of(raw: RawEventView) -> EventView {
    match raw {
        RawEventView::Start { name, attributes } => match name_of_bytes(name) {
            Some(name) => EventView::Start {
                name,
                attributes: attributes_of(attributes),
                well_formed: all_told_apart(attributes),
            },
            None => EventView::Other,
        },
        RawEventView::End { name } => match name_of_bytes(name) {
            Some(name) => EventView::End { name },
            None => EventView::Other,
        },
        RawEventView::Text { content } => EventView::Text { text: text_of_bytes(content) },
        RawEventView::Eof => EventView::Eof,
        RawEventView::Skipped => EventView::Other,
        RawEventView::Failed => EventView::Failed,
    }
}

/// The events of a part up to the one after which nothing follows: up to
/// the first at which the tokenizer fails or reports the end, or all of
/// them and the end of the part behind them.
pub open spec fn closed(raw: Seq<RawEventView>) -> Seq<EventView>
    decreases raw.len(),
{
    if raw.len() == 0 {
        seq![EventView::Eof]
    } else if is_final(event_of(raw[0])) {
        seq![event_of(raw[0])]
    } else {
        seq![event_of(raw[0])] + closed(raw.drop_first())
    }
}

/// The events that the bytes of a part hold.
pub open spec fn events_of(data: Seq<u8>) -> Seq<EventView> {
    closed(tokens(data))
}

/// Whether a list of events is what reading a part gives: it ends with the
/// one event after which nothing follows.
pub open spec fn ends_once(events: Seq<EventView>) -> bool {
    &&& events.len() > 0
    &&& is_final(events.last())
    &&& forall|i: int| 0 <= i < events.len() - 1 ==> !is_final(#[trigger] events[i])
}

/// The events of a part end once.
pub proof fn lemma_closed_ends_once(raw: Seq<RawEventView>)
    ensures
        ends_once(closed(raw)),
    decreases raw.len(),
{
    if raw.len() > 0 && !is_final(event_of(raw[0])) {
        lemma_closed_ends_once(raw.drop_first());
        let rest = closed(raw.drop_first());
        let all = closed(raw);
        assert(all.last() == rest.last());
        assert forall|i: int| 0 <= i < all.len() - 1 implies !is_final(#[trigger] all[i]) by {
            if i > 0 {
                assert(all[i] == rest[i - 1]);
            }
        }
    }
}

/// Turns bytes of a part into text.
fn decode_text(bytes: &Vec<u8>) -> (text: Option<String>)
    ensures
        text.deep_view() == text_of_bytes(bytes@),
{
    match utf8_text(bytes.as_slice()) {
        Some(s) => {
            proof {
                vstd::utf8::encode_utf8_decode_utf8(s@);
            }
            unescape(s)
        },
        None => None,
    }
}

/// Turns the bytes of a name into text.
fn decode_name(bytes: &Vec<u8>) -> (name: Option<String>)
    ensures
        name.deep_view() == name_of_bytes(bytes@),
{
    match utf8_text(bytes.as_slice()) {
        Some(s) => {
            proof {
                vstd::utf8::encode_utf8_decode_utf8(s@);
            }
            Some(s.to_owned())
        },
        None => None,
    }
}

/// Turns the attributes of a tag into text.
fn decode_attributes(raw: &Vec<Option<RawAttribute>>) -> (decoded: (Vec<XmlAttribute>, bool))
    ensures
        decoded.0.deep_view() == attributes_of(raw.deep_view()),
        decoded.1 == all_told_apart(raw.deep_view()),
{
    let ghost all = raw.deep_view();
    let mut attributes: Vec<XmlAttribute> = Vec::new();
    let mut well_formed = true;
    let mut i: usize = 0;
    assert(attributes.deep_view() =~= attributes_of(all.take(0)));
    while i < raw.len()
        invariant
            i <= raw@.len(),
            all == raw.deep_view(),
            attributes.deep_view() == attributes_of(all.take(i as int)),
            well_formed == all_told_apart(all.take(i as int)),
        decreases raw@.len() - i,
    {
        let ghost upto = all.take(i + 1);
        let ghost prior = attributes.deep_view();
        assert(upto.drop_last() == all.take(i as int));
        assert(upto.last() == raw@[i as int].deep_view());
        match &raw[i] {
            Some(a) => {
                match decode_name(&a.key) {
                    Some(key) => {
                        let attribute = XmlAttribute { key, value: decode_text(&a.value) };
                        attributes.push(attribute);
                        assert(attributes.deep_view() =~= prior.push(attribute.deep_view()));
                    },
                    None => {},
                }
                assert(well_formed == all_told_apart(upto)) by {
                    if all_told_apart(all.take(i as int)) {
                        assert forall|j: int| 0 <= j < upto.len() implies (#[trigger] upto[j])
                            is Some by {
                            if j < i {
                                assert(all.take(i as int)[j] is Some);
                            }
                        }
                    } else {
                        let j = choose|j: int|
                            0 <= j < all.take(i as int).len() && !((#[trigger] all.take(
                                i as int,
                            )[j]) is Some);
                        assert(upto[j] == all.take(i as int)[j]);
                    }
                }
            },
            None => {
                well_formed = false;
                assert(!(upto[i as int] is Some));
            },
        }
        i = i + 1;
    }
    assert(all.take(i as int) == all);
    (attributes, well_formed)
}

/// Turns an event of the tokenizer into one that the decoders read.
fn decode_event(raw: &RawEvent) -> (event: XmlEvent)
    ensures
        event.deep_view() == event_of(raw.deep_view()),
{
    match raw {
        RawEvent::Start { name, attributes } => match decode_name(name) {
            Some(name) => {
                let (attributes, well_formed) = decode_attributes(attributes);
                XmlEvent::Start { name, attributes, well_formed }
            },
            None => XmlEvent::Other,
        },
        RawEvent::End { name } => match decode_name(name) {
            Some(name) => XmlEvent::End { name },
            None => XmlEvent::Other,
        },
        RawEvent::Text { content } => XmlEvent::Text { text: decode_text(content) },
        RawEvent::Eof => XmlEvent::Eof,
        RawEvent::Skipped => XmlEvent::Other,
        RawEvent::Failed => XmlEvent::Failed,
    }
}

/// The events of a part, handed out one at a time.
pub struct EventReader<'a> {
    reader: Reader<&'a [u8]>,
    ended: bool,
}

impl<'a> EventReader<'a> {
    /// The events that are still to come, the last of them the one after
    /// which nothing follows.
    pub closed spec fn remaining(&self) -> Seq<EventView> {
        if self.ended {
            Seq::empty()
        } else {
            closed(pending(self.reader))
        }
    }

    /// Whether every event was handed out.
    pub fn is_done(&self) -> (done: bool)
        ensures
            done == (self.remaining().len() == 0),
    {
        proof {
            lemma_closed_ends_once(pending(self.reader));
        }
        self.ended
    }

    /// The events of the part that the bytes hold.
    pub fn new(data: &'a [u8]) -> (events: EventReader<'a>)
        ensures
            events.remaining() == events_of(data@),
    {
        EventReader { reader: open_reader(data), ended: false }
    }

    /// Hands out the next event. Once the event after which nothing
    /// follows was handed out, the end of the part is reported again.
    pub fn next(&mut self) -> (event: XmlEvent)
        ensures
            old(self).remaining().len() > 0 ==> event.deep_view() == old(self).remaining()[0]
                && final(self).remaining() == old(self).remaining().drop_first(),
            old(self).remaining().len() == 0 ==> event is Eof && final(self).remaining().len()
                == 0,
    {
        if self.ended {
            return XmlEvent::Eof;
        }
        let ghost left = pending(self.reader);
        proof {
            lemma_closed_ends_once(left);
        }
        let raw = next_raw_event(&mut self.reader);
        let event = decode_event(&raw);
        match event {
            XmlEvent::Eof => {
                self.ended = true;
            },
            XmlEvent::Failed => {
                self.ended = true;
            },
            _ => {},
        }
        proof {
            if self.ended {
                assert(closed(left) =~= seq![event.deep_view()]);
                assert(closed(left).drop_first() =~= Seq::<EventView>::empty());
            } else {
                assert(closed(left).drop_first() =~= closed(left.drop_first()));
            }
        }
        event
    }
}

/// Reads the events of a part, up to the end of the part or to the place
/// where the tokenizer fails.
pub fn read_events(data: &[u8]) -> (events: Vec<XmlEvent>)
    ensures
        events.deep_view() == events_of(data@),
        ends_once(events.deep_view()),
{
    let mut reader = EventReader::new(data);
    let mut events: Vec<XmlEvent> = Vec::new();
    proof {
        lemma_closed_ends_once(tokens(data@));
        assert(events.deep_view() + reader.remaining() =~= reader.remaining());
    }
    while !reader.is_done()
        invariant
            events_of(data@) == events.deep_view() + reader.remaining(),
            ends_once(events_of(data@)),
        decreases reader.remaining().len(),
    {
        let ghost left = reader.remaining();
        let ghost before = events.deep_view();
        let event = reader.next();
        events.push(event);
        assert(events.deep_view() =~= before.push(event.deep_view()));
        assert(before + left =~= before.push(left[0]) + left.drop_first());
    }
    assert(events.deep_view() + reader.remaining() =~= events.deep_view());
    events
}

} // verus!
