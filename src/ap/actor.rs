//! The access-point actor's decisions: what each event broadcasts, the line
//! that carries each command, and what each reply means.
use vstd::prelude::*;
use vstd::utf8::valid_utf8;
use crate::ap::event::{Event, EventView};
use crate::ap::types::{Config, Status, status_parses, status_matches, config_parses, config_matches};
use crate::error::Error;
use crate::text::chars_of;
use crate::wire::{decode_reply, push_text, reply_text, text_of};

verus! {

/// Changes fanned out to the access point's subscribers.
#[derive(Debug, Clone, PartialEq, Eq)]
pub enum Broadcast {
    Ready,
    Connected(String),
    Disconnected(String),
    UnknownEvent(String),
}

pub enum BroadcastView {
    Ready,
    Connected(Seq<char>),
    Disconnected(Seq<char>),
    UnknownEvent(Seq<char>),
}

impl View for Broadcast {
    type V = BroadcastView;

    open spec fn view(&self) -> BroadcastView {
        match self {
            Broadcast::Ready => BroadcastView::Ready,
            Broadcast::Connected(m) => BroadcastView::Connected(m@),
            Broadcast::Disconnected(m) => BroadcastView::Disconnected(m@),
            Broadcast::UnknownEvent(t) => BroadcastView::UnknownEvent(t@),
        }
    }
}

/// The broadcast an event gives: each carries the event's text.
pub open spec fn broadcast_of(e: EventView) -> BroadcastView {
    match e {
        EventView::ApStaConnected(m) => BroadcastView::Connected(m),
        EventView::ApStaDisconnected(m) => BroadcastView::Disconnected(m),
        EventView::Unknown(t) => BroadcastView::UnknownEvent(t),
    }
}

/// The broadcast for an event of the daemon.
pub fn broadcast_for(e: Event) -> (r: Broadcast)
    ensures
        r@ == broadcast_of(e@),
{
    match e {
        Event::ApStaConnected(m) => Broadcast::Connected(m),
        Event::ApStaDisconnected(m) => Broadcast::Disconnected(m),
        Event::Unknown(t) => Broadcast::UnknownEvent(t),
    }
}

/// The broadcasts a run of events gives: one for each, in the same order.
pub open spec fn broadcasts_of(es: Seq<EventView>) -> Seq<BroadcastView> {
    es.map_values(|e: EventView| broadcast_of(e))
}

/// Broadcasts keep the order of the events: those of two runs of events in
/// turn are those of the first run, then those of the second. A station that
/// associates and then leaves gives exactly two broadcasts, `Connected` then
/// `Disconnected`, both carrying the station's text.
pub proof fn lemma_broadcasts_keep_event_order(first: Seq<EventView>, then: Seq<EventView>, m: Seq<char>)
    ensures
        broadcasts_of(first + then) == broadcasts_of(first) + broadcasts_of(then),
        broadcasts_of(seq![EventView::ApStaConnected(m), EventView::ApStaDisconnected(m)])
            == seq![BroadcastView::Connected(m), BroadcastView::Disconnected(m)],
{
    assert(broadcasts_of(first + then) =~= broadcasts_of(first) + broadcasts_of(then));
    assert(broadcasts_of(seq![EventView::ApStaConnected(m), EventView::ApStaDisconnected(m)])
        =~= seq![BroadcastView::Connected(m), BroadcastView::Disconnected(m)]);
}

/// A command to the access-point daemon, without its reply channel.
#[derive(Debug, Clone, PartialEq, Eq)]
pub enum Command {
    Status,
    GetConfig,
    Enable,
    Disable,
    SetValue(String, String),
    Attach(Vec<String>),
    LogLevelDebug,
}

pub enum CommandView {
    Status,
    GetConfig,
    Enable,
    Disable,
    SetValue(Seq<char>, Seq<char>),
    Attach(Seq<Seq<char>>),
    LogLevelDebug,
}

impl View for Command {
    type V = CommandView;

    open spec fn view(&self) -> CommandView {
        match self {
            Command::Status => CommandView::Status,
            Command::GetConfig => CommandView::GetConfig,
            Command::Enable => CommandView::Enable,
            Command::Disable => CommandView::Disable,
            Command::SetValue(k, v) => CommandView::SetValue(k@, v@),
            Command::Attach(o) => CommandView::Attach(Seq::new(o@.len(), |i: int| o@[i]@)),
            Command::LogLevelDebug => CommandView::LogLevelDebug,
        }
    }
}

/// `ATTACH` followed by each option, each after one space.
pub open spec fn attach_line(options: Seq<Seq<char>>) -> Seq<char>
    decreases options.len(),
{
    if options.len() == 0 {
        "ATTACH"@
    } else {
        attach_line(options.drop_last()) + " "@ + options.last()
    }
}

/// The exact line that carries a command.
pub open spec fn line_of(c: CommandView) -> Seq<char> {
    match c {
        CommandView::Status => "STATUS"@,
        CommandView::GetConfig => "GET_CONFIG"@,
        CommandView::Enable => "ENABLE"@,
        CommandView::Disable => "DISABLE"@,
        CommandView::SetValue(k, v) => "SET "@ + k + " "@ + v,
        CommandView::Attach(o) => attach_line(o),
        CommandView::LogLevelDebug => "LOG_LEVEL DEBUG"@,
    }
}

impl Command {
    /// The line that carries this command.
    pub fn line(&self) -> (r: String)
        ensures
            r@ == line_of(self@),
    {
        let v: Vec<char> = match self {
            Command::Status => chars_of("STATUS"),
            Command::GetConfig => chars_of("GET_CONFIG"),
            Command::Enable => chars_of("ENABLE"),
            Command::Disable => chars_of("DISABLE"),
            Command::SetValue(k, val) => {
                let mut out = chars_of("SET ");
                push_text(&mut out, k.as_str());
                push_text(&mut out, " ");
                push_text(&mut out, val.as_str());
                out
            },
            Command::Attach(options) => {
                let ghost ov = Seq::new(options@.len(), |i: int| options@[i]@);
                let mut out = chars_of("ATTACH");
                let mut i: usize = 0;
                assert(ov.subrange(0, 0) =~= Seq::<Seq<char>>::empty());
                while i < options.len()
                    invariant
                        i <= options@.len(),
                        ov == Seq::new(options@.len(), |i: int| options@[i]@),
                        out@ == attach_line(ov.subrange(0, i as int)),
                    decreases options@.len() - i,
                {
                    assert(ov.subrange(0, i + 1).drop_last() =~= ov.subrange(0, i as int));
                    push_text(&mut out, " ");
                    push_text(&mut out, options[i].as_str());
                    i = i + 1;
                }
                assert(ov.subrange(0, i as int) =~= ov);
                out
            },
            Command::LogLevelDebug => chars_of("LOG_LEVEL DEBUG"),
        };
        text_of(&v)
    }
}

/// The status in a `STATUS` reply.
pub fn status_reply(datagram: &[u8]) -> (r: Result<Status, Error>)
    ensures
        !valid_utf8(datagram@) ==> r == Err::<Status, Error>(Error::Utf8Parse),
        valid_utf8(datagram@) ==> (r is Ok <==> status_parses(reply_text(datagram@))),
        r matches Ok(st) ==> status_matches(st, reply_text(datagram@)),
        valid_utf8(datagram@) && r is Err ==> r->Err_0 is ParsingWifiStatus,
        r matches Err(Error::ParsingWifiStatus { s }) ==> s@ == reply_text(datagram@),
{
    let text = text_of(&decode_reply(datagram)?);
    Status::from_response(text.as_str())
}

/// The configuration in a `GET_CONFIG` reply.
pub fn config_reply(datagram: &[u8]) -> (r: Result<Config, Error>)
    ensures
        !valid_utf8(datagram@) ==> r == Err::<Config, Error>(Error::Utf8Parse),
        valid_utf8(datagram@) ==> (r is Ok <==> config_parses(reply_text(datagram@))),
        r matches Ok(c) ==> config_matches(c, reply_text(datagram@)),
        valid_utf8(datagram@) && r is Err ==> r->Err_0 is ParsingWifiConfig,
        r matches Err(Error::ParsingWifiConfig { s }) ==> s@ == reply_text(datagram@),
{
    let text = text_of(&decode_reply(datagram)?);
    Config::from_response(text.as_str())
}

} // verus!
