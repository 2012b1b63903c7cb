//! Unsolicited supplicant events.
use vstd::prelude::*;
use vstd::utf8::valid_utf8;
use crate::error::Error;
use crate::text::{contains, ends_with, chars_of, has, has_suffix};
use crate::wire::{reply_text, decode_reply};

verus! {

/// An event line of the supplicant that the actor acts on.
#[derive(Debug, Clone, Copy, PartialEq, Eq, Structural)]
pub enum Event {
    ScanComplete,
    Connected,
    Disconnected,
    NetworkNotFound,
    WrongPsk,
}

/// The event an event line stands for; the first rule that matches wins.
pub open spec fn event_of(line: Seq<char>) -> Option<Event> {
    if ends_with(line, "CTRL-EVENT-SCAN-RESULTS"@) {
        Some(Event::ScanComplete)
    } else if contains(line, "CTRL-EVENT-CONNECTED"@) {
        Some(Event::Connected)
    } else if contains(line, "CTRL-EVENT-DISCONNECTED"@) {
        Some(Event::Disconnected)
    } else if contains(line, "CTRL-EVENT-NETWORK-NOT-FOUND"@) {
        Some(Event::NetworkNotFound)
    } else if contains(line, "CTRL-EVENT-SSID-TEMP-DISABLED"@) && contains(
        line,
        "reason=WRONG_KEY"@,
    ) {
        Some(Event::WrongPsk)
    } else {
        None
    }
}

/// Parses one datagram of the attached socket; lines that name no event
/// the actor acts on give `None`.
pub fn parse_event(datagram: &[u8]) -> (r: Result<Option<Event>, Error>)
    ensures
        r is Ok <==> valid_utf8(datagram@),
        r matches Ok(e) ==> e == event_of(reply_text(datagram@)),
        r matches Err(e) ==> e == Error::Utf8Parse,
{
    let line = decode_reply(datagram)?;
    let line = line.as_slice();
    if has_suffix(line, chars_of("CTRL-EVENT-SCAN-RESULTS").as_slice()) {
        Ok(Some(Event::ScanComplete))
    } else if has(line, chars_of("CTRL-EVENT-CONNECTED").as_slice()) {
        Ok(Some(Event::Connected))
    } else if has(line, chars_of("CTRL-EVENT-DISCONNECTED").as_slice()) {
        Ok(Some(Event::Disconnected))
    } else if has(line, chars_of("CTRL-EVENT-NETWORK-NOT-FOUND").as_slice()) {
        Ok(Some(Event::NetworkNotFound))
    } else if has(line, chars_of("CTRL-EVENT-SSID-TEMP-DISABLED").as_slice()) && has(
        line,
        chars_of("reason=WRONG_KEY").as_slice(),
    ) {
        Ok(Some(Event::WrongPsk))
    } else {
        Ok(None)
    }
}

} // verus!
