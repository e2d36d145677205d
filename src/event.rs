//! Event classification: what one line of the stream means.
use vstd::prelude::*;
use vstd::utf8::{decode_utf8, valid_utf8};
use crate::text::{has_prefix, same_text, trim, trimmed, utf8_text};

verus! {

/// The prefix of a line that carries a payload.
pub const DATA_PREFIX: &'static str = "data: ";

/// The line that ends the logical stream.
pub const TERMINATOR: &'static str = "data: [DONE]";

/// The comment line that the server sends to keep the connection open.
pub const KEEP_ALIVE: &'static str = ": keep-alive";

/// What one line means.
#[derive(Debug, Clone, PartialEq, Eq)]
pub enum Event {
    /// Nothing but white space.
    Blank,
    /// The keep-alive comment.
    KeepAlive,
    /// The end of the logical stream.
    Terminator,
    /// A payload: the trimmed line after its `data: ` prefix.
    Data(String),
    /// A trimmed line that is none of the above.
    Unprefixed(String),
    /// A line that is not valid UTF-8, as its bytes.
    NotUtf8(Vec<u8>),
}

/// The meaning of a line, over plain values.
pub enum EventView {
    Blank,
    KeepAlive,
    Terminator,
    Data(Seq<char>),
    Unprefixed(Seq<char>),
    NotUtf8(Seq<u8>),
}

impl View for Event {
    type V = EventView;

    open spec fn view(&self) -> EventView {
        match self {
            Event::Blank => EventView::Blank,
            Event::KeepAlive => EventView::KeepAlive,
            Event::Terminator => EventView::Terminator,
            Event::Data(p) => EventView::Data(p@),
            Event::Unprefixed(t) => EventView::Unprefixed(t@),
            Event::NotUtf8(b) => EventView::NotUtf8(b@),
        }
    }
}

/// The meaning of the text of a line, once trimmed.
pub open spec fn text_event(t: Seq<char>) -> EventView {
    if t == TERMINATOR@ {
        EventView::Terminator
    } else if t.len() == 0 {
        EventView::Blank
    } else if t == KEEP_ALIVE@ {
        EventView::KeepAlive
    } else if DATA_PREFIX@.is_prefix_of(t) {
        EventView::Data(t.subrange(DATA_PREFIX@.len() as int, t.len() as int))
    } else {
        EventView::Unprefixed(t)
    }
}

/// The meaning of a line of bytes.
pub open spec fn event_of(line: Seq<u8>) -> EventView {
    if valid_utf8(line) {
        text_event(trimmed(decode_utf8(line)))
    } else {
        EventView::NotUtf8(line)
    }
}

/// An event that the caller sees as an item (a payload or an error).
pub open spec fn yields_item(e: EventView) -> bool {
    e is Data || e is Unprefixed || e is NotUtf8
}

/// Classifies one line (without its newline).
pub fn classify_line(line: Vec<u8>) -> (e: Event)
    ensures
        e@ == event_of(line@),
{
    match utf8_text(line) {
        Err(bytes) => Event::NotUtf8(bytes),
        Ok(text) => {
            let t = trim(text.as_str());
            if same_text(t, TERMINATOR) {
                Event::Terminator
            } else if t.is_empty() {
                Event::Blank
            } else if same_text(t, KEEP_ALIVE) {
                Event::KeepAlive
            } else if has_prefix(t, DATA_PREFIX) {
                let payload = t.substring_char(DATA_PREFIX.unicode_len(), t.unicode_len());
                Event::Data(payload.to_owned())
            } else {
                Event::Unprefixed(t.to_owned())
            }
        },
    }
}

} // verus!
