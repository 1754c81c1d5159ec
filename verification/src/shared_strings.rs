//! The decoder of the shared-strings part: the strings that cells refer to
//! by index, each the text runs of one entry put together.

use vstd::prelude::*;
use vstd::string::StringExecFns;
use crate::error::{decoded, DecodeError};
use crate::text::same_text;
use crate::xml::{EventReader, EventView, XmlEvent};

verus! {

/// Where in an entry the reader is.
#[derive(Clone, Copy, Debug, PartialEq, Eq, Structural)]
pub enum StringPath {
    /// Outside any entry.
    Any,
    /// Inside an entry.
    Si,
    /// Inside a text run of an entry.
    T,
}

/// The state of the decoder between two events.
pub struct StringsReader {
    pub path: StringPath,
    /// The text of the open entry, as far as it was read.
    pub text: String,
    /// Whether the reader is inside a phonetic guide, whose text is left out.
    pub ignore: bool,
    /// The entries that are complete.
    pub pool: Vec<String>,
}

/// What a `StringsReader` holds.
pub struct StringsView {
    pub path: StringPath,
    pub text: Seq<char>,
    pub ignore: bool,
    pub pool: Seq<Seq<char>>,
}

impl DeepView for StringsReader {
    type V = StringsView;

    open spec fn deep_view(&self) -> StringsView {
        StringsView {
            path: self.path,
            text: self.text@,
            ignore: self.ignore,
            pool: self.pool.deep_view(),
        }
    }
}

/// The state before the first event.
pub open spec fn initial_strings() -> StringsView {
    StringsView { path: StringPath::Any, text: Seq::empty(), ignore: false, pool: Seq::empty() }
}

/// Whether a tag opens or closes a phonetic guide.
pub open spec fn is_phonetic(name: Seq<char>) -> bool {
    name == "rPh"@ || name == "phoneticPr"@
}

/// What a start tag does: an entry opens, a text run of the entry opens
/// unless a phonetic guide is open, or a phonetic guide opens.
pub open spec fn on_string_start(state: StringsView, name: Seq<char>) -> StringsView {
    if name == "si"@ {
        StringsView { path: StringPath::Si, ..state }
    } else if name == "t"@ && state.path == StringPath::Si && !state.ignore {
        StringsView { path: StringPath::T, ..state }
    } else if state.path == StringPath::Si && is_phonetic(name) {
        StringsView { ignore: true, ..state }
    } else {
        state
    }
}

/// What an end tag does: a phonetic guide or a text run closes, or the
/// entry closes and its text joins the pool. Nothing is given back at the
/// end tag of the part, where the pool is complete.
pub open spec fn on_string_end(state: StringsView, name: Seq<char>) -> Option<StringsView> {
    if state.path == StringPath::Si && is_phonetic(name) {
        Some(StringsView { ignore: false, ..state })
    } else if name == "t"@ && state.path == StringPath::T && !state.ignore {
        Some(StringsView { path: StringPath::Si, ..state })
    } else if name == "si"@ {
        Some(
            StringsView {
                path: StringPath::Any,
                text: Seq::empty(),
                pool: state.pool.push(state.text),
                ..state
            },
        )
    } else if name == "sst"@ {
        None
    } else {
        Some(state)
    }
}

/// What one event leads to.
pub enum StringStep {
    /// The decoder goes on in a new state.
    Continue(StringsView),
    /// The part has ended; the pool it holds.
    Done(Seq<Seq<char>>),
    /// The part cannot be decoded.
    Fail(DecodeError),
}

/// What one event does to the decoder. Text inside a text run is added to
/// the text of the open entry.
pub open spec fn string_step(state: StringsView, event: EventView) -> StringStep {
    match event {
        EventView::Start { name, attributes, well_formed } => StringStep::Continue(
            on_string_start(state, name),
        ),
        EventView::End { name } => match on_string_end(state, name) {
            Some(next) => StringStep::Continue(next),
            None => StringStep::Done(state.pool),
        },
        EventView::Text { text } => if state.path == StringPath::T {
            match text {
                Some(t) => StringStep::Continue(StringsView { text: state.text + t, ..state }),
                None => StringStep::Fail(DecodeError::MalformedXml),
            }
        } else {
            StringStep::Continue(state)
        },
        EventView::Eof => StringStep::Fail(DecodeError::MalformedXml),
        EventView::Failed => StringStep::Fail(DecodeError::MalformedXml),
        EventView::Other => StringStep::Continue(state),
    }
}

/// What the events of a shared-strings part decode to, from a given state
/// on: the pool at the end tag of the part, or the first error. Events that
/// end before that tag are an error.
pub open spec fn strings_from(state: StringsView, events: Seq<EventView>) -> Result<
    Seq<Seq<char>>,
    DecodeError,
>
    decreases events.len(),
{
    if events.len() == 0 {
        Err(DecodeError::MalformedXml)
    } else {
        match string_step(state, events[0]) {
            StringStep::Continue(next) => strings_from(next, events.drop_first()),
            StringStep::Done(pool) => Ok(pool),
            StringStep::Fail(e) => Err(e),
        }
    }
}

/// What the events of a shared-strings part decode to.
pub open spec fn strings_of(events: Seq<EventView>) -> Result<Seq<Seq<char>>, DecodeError> {
    strings_from(initial_strings(), events)
}

impl StringsReader {
    /// The decoder before the first event.
    pub fn new() -> (reader: StringsReader)
        ensures
            reader.deep_view() == initial_strings(),
    {
        let reader = StringsReader {
            path: StringPath::Any,
            text: String::new(),
            ignore: false,
            pool: Vec::new(),
        };
        assert(reader.pool.deep_view() =~= Seq::empty());
        reader
    }

    fn start_tag(&mut self, name: &str)
        ensures
            final(self).deep_view() == on_string_start(old(self).deep_view(), name@),
    {
        if same_text(name, "si") {
            self.path = StringPath::Si;
        } else if same_text(name, "t") && self.path == StringPath::Si && !self.ignore {
            self.path = StringPath::T;
        } else if self.path == StringPath::Si && (same_text(name, "rPh") || same_text(
            name,
            "phoneticPr",
        )) {
            self.ignore = true;
        }
    }

    fn end_tag(&mut self, name: &str) -> (done: bool)
        ensures
            match on_string_end(old(self).deep_view(), name@) {
                Some(state) => !done && final(self).deep_view() == state,
                None => done && final(self).deep_view() == old(self).deep_view(),
            },
    {
        if self.path == StringPath::Si && (same_text(name, "rPh") || same_text(
            name,
            "phoneticPr",
        )) {
            self.ignore = false;
            false
        } else if same_text(name, "t") && self.path == StringPath::T && !self.ignore {
            self.path = StringPath::Si;
            false
        } else if same_text(name, "si") {
            let mut text = String::new();
            std::mem::swap(&mut text, &mut self.text);
            let ghost prior = self.pool.deep_view();
            self.pool.push(text);
            assert(self.pool.deep_view() =~= prior.push(text@));
            self.path = StringPath::Any;
            false
        } else {
            same_text(name, "sst")
        }
    }

    /// Hands the decoder the next event of the part. Gives `true` once
    /// the part has ended: `pool` then holds the shared strings, and no
    /// further event is to be fed. After an error the decoder is of no
    /// further use.
    pub fn feed(&mut self, event: &XmlEvent) -> (progress: Result<bool, DecodeError>)
        ensures
            match string_step(old(self).deep_view(), event.deep_view()) {
                StringStep::Continue(state) => progress == Ok::<bool, DecodeError>(false)
                    && final(self).deep_view() == state,
                StringStep::Done(pool) => progress == Ok::<bool, DecodeError>(true)
                    && final(self).pool.deep_view() == pool,
                StringStep::Fail(e) => progress == Err::<bool, DecodeError>(e),
            },
    {
        match event {
            XmlEvent::Start { name, attributes, well_formed } => {
                self.start_tag(name.as_str());
                Ok(false)
            },
            XmlEvent::End { name } => Ok(self.end_tag(name.as_str())),
            XmlEvent::Text { text } => {
                if self.path == StringPath::T {
                    match text {
                        Some(t) => {
                            self.text.append(t.as_str());
                            Ok(false)
                        },
                        None => Err(DecodeError::MalformedXml),
                    }
                } else {
                    Ok(false)
                }
            },
            XmlEvent::Eof => Err(DecodeError::MalformedXml),
            XmlEvent::Failed => Err(DecodeError::MalformedXml),
            XmlEvent::Other => Ok(false),
        }
    }
}

/// Decodes the events of a shared-strings part into the pool of strings, in
/// the order of the part.
pub fn decode_shared_strings(events: &Vec<XmlEvent>) -> (pool: Result<Vec<String>, DecodeError>)
    ensures
        decoded(pool) == strings_of(events.deep_view()),
{
    let ghost all = events.deep_view();
    let mut reader = StringsReader::new();
    let mut i: usize = 0;
    assert(all.skip(0) == all);
    while i < events.len()
        invariant
            i <= events@.len(),
            all == events.deep_view(),
            strings_of(all) == strings_from(reader.deep_view(), all.skip(i as int)),
        decreases events@.len() - i,
    {
        assert(all.skip(i as int)[0] == events@[i as int].deep_view());
        assert(all.skip(i as int).drop_first() == all.skip(i + 1));
        match reader.feed(&events[i]) {
            Err(e) => {
                return Err(e);
            },
            Ok(true) => {
                return Ok(reader.pool);
            },
            Ok(false) => {},
        }
        i = i + 1;
    }
    Err(DecodeError::MalformedXml)
}

/// Decodes the events that a reader still holds into the pool of strings,
/// as `decode_shared_strings` does.
pub fn decode_shared_strings_from(events: &mut EventReader) -> (pool: Result<
    Vec<String>,
    DecodeError,
>)
    ensures
        decoded(pool) == strings_of(old(events).remaining()),
{
    let ghost all = events.remaining();
    let mut reader = StringsReader::new();
    loop
        invariant
            all == old(events).remaining(),
            strings_of(all) == strings_from(reader.deep_view(), events.remaining()),
        decreases events.remaining().len(),
    {
        let event = events.next();
        match reader.feed(&event) {
            Err(e) => {
                return Err(e);
            },
            Ok(true) => {
                return Ok(reader.pool);
            },
            Ok(false) => {},
        }
    }
}

/// The state after the events of one text run: its start tag, its text and
/// its end tag.
pub open spec fn after_run(state: StringsView, text: Seq<char>) -> StringsView {
    let opened = on_string_start(state, "t"@);
    let read = match string_step(opened, EventView::Text { text: Some(text) }) {
        StringStep::Continue(next) => next,
        _ => opened,
    };
    match on_string_end(read, "t"@) {
        Some(next) => next,
        None => read,
    }
}

/// The text runs of an entry are put together: inside an entry and
/// outside a phonetic guide, two runs followed by the end of the entry add
/// one string to the pool, the text of the first run and then that of the
/// second behind what the entry held.
pub proof fn lemma_runs_are_joined(state: StringsView, first: Seq<char>, second: Seq<char>)
    requires
        state.path == StringPath::Si,
        !state.ignore,
    ensures
        on_string_end(after_run(after_run(state, first), second), "si"@) matches Some(next)
            && next.pool == state.pool.push(state.text + first + second),
{
    reveal_strlit("t");
    reveal_strlit("si");
    reveal_strlit("sst");
    reveal_strlit("rPh");
    reveal_strlit("phoneticPr");
    assert("t"@.len() == 1 && "si"@.len() == 2 && "sst"@.len() == 3);
    assert("rPh"@.len() == 3 && "phoneticPr"@.len() == 10);
    assert("si"@[0] != "sst"@[0] || "si"@.len() != "sst"@.len());
}

/// The text of a phonetic guide is left out: inside an entry and inside a
/// phonetic guide, a text run changes nothing.
pub proof fn lemma_phonetic_text_is_left_out(state: StringsView, text: Seq<char>)
    requires
        state.path == StringPath::Si,
        state.ignore,
    ensures
        after_run(state, text) == state,
{
    reveal_strlit("t");
    reveal_strlit("si");
    reveal_strlit("sst");
    reveal_strlit("rPh");
    reveal_strlit("phoneticPr");
    assert("t"@.len() == 1 && "si"@.len() == 2 && "sst"@.len() == 3);
    assert("rPh"@.len() == 3 && "phoneticPr"@.len() == 10);
}

} // verus!
