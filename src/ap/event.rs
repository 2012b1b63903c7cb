//! Unsolicited access-point daemon events.
use vstd::prelude::*;
use vstd::utf8::valid_utf8;
use crate::error::Error;
use crate::text::{first_occurrence, chars_of, find, string_of};
use crate::wire::{reply_text, decode_reply};

verus! {

/// An event line of the access-point daemon.
#[derive(Debug, Clone, PartialEq, Eq)]
pub enum Event {
    /// A station associated; the text after the event token (its address).
    ApStaConnected(String),
    /// A station left; the text after the event token (its address).
    ApStaDisconnected(String),
    /// Any other line, whole.
    Unknown(String),
}

/// What an event says, over character sequences.
pub enum EventView {
    ApStaConnected(Seq<char>),
    ApStaDisconnected(Seq<char>),
    Unknown(Seq<char>),
}

impl View for Event {
    type V = EventView;

    open spec fn view(&self) -> EventView {
        match self {
            Event::ApStaConnected(m) => EventView::ApStaConnected(m@),
            Event::ApStaDisconnected(m) => EventView::ApStaDisconnected(m@),
            Event::Unknown(t) => EventView::Unknown(t@),
        }
    }
}

/// What follows the first occurrence of `token` in `line`.
pub open spec fn after_token(line: Seq<char>, token: Seq<char>) -> Seq<char> {
    line.subrange(first_occurrence(line, token)->0 + token.len(), line.len() as int)
}

/// The event an event line stands for.
pub open spec fn event_of(line: Seq<char>) -> EventView {
    if first_occurrence(line, "AP-STA-DISCONNECTED"@) is Some {
        EventView::ApStaDisconnected(after_token(line, "AP-STA-DISCONNECTED"@))
    } else if first_occurrence(line, "AP-STA-CONNECTED"@) is Some {
        EventView::ApStaConnected(after_token(line, "AP-STA-CONNECTED"@))
    } else {
        EventView::Unknown(line)
    }
}

/// The text after the first occurrence of `token` in `line`, if it occurs.
fn text_after(line: &Vec<char>, token: &Vec<char>) -> (r: Option<String>)
    ensures
        r is Some <==> first_occurrence(line@, token@) is Some,
        r matches Some(t) ==> t@ == after_token(line@, token@),
{
    let n = line.len();
    match find(line.as_slice(), token.as_slice()) {
        Some(i) => {
            assert(i + token@.len() <= n);
            Some(string_of(line.as_slice(), i + token.len(), n))
        },
        None => None,
    }
}

/// Parses one datagram of the attached socket.
pub fn parse_event(datagram: &[u8]) -> (r: Result<Event, Error>)
    ensures
        r is Ok <==> valid_utf8(datagram@),
        r matches Ok(e) ==> e@ == event_of(reply_text(datagram@)),
        r matches Err(e) ==> e == Error::Utf8Parse,
{
    let line = decode_reply(datagram)?;
    if let Some(mac) = text_after(&line, &chars_of("AP-STA-DISCONNECTED")) {
        Ok(Event::ApStaDisconnected(mac))
    } else if let Some(mac) = text_after(&line, &chars_of("AP-STA-CONNECTED")) {
        Ok(Event::ApStaConnected(mac))
    } else {
        assert(line@.subrange(0, line@.len() as int) =~= line@);
        Ok(Event::Unknown(string_of(line.as_slice(), 0, line.len())))
    }
}

} // verus!
