//! The library's error type.
use vstd::prelude::*;

verus! {

/// Everything that can go wrong between a client, an actor and a daemon.
#[derive(Debug, Clone, PartialEq, Eq)]
pub enum Error {
    /// A datagram operation failed; the text describes the failure.
    Io(String),
    /// Shutdown was requested while the daemon's socket was still being opened.
    StartupAborted,
    /// A status reply was not a list of `key=value` lines with the expected keys.
    ParsingWifiStatus { s: String },
    /// A configuration reply was not a list of `key=value` lines with the expected keys.
    ParsingWifiConfig { s: String },
    /// The daemon answered something other than what the command expects.
    UnexpectedResponse(String),
    /// No answer came within the command's time limit.
    Timeout,
    /// Fewer bytes than the command were sent: (sent, command length).
    DidNotWriteAllBytes(usize, usize),
    /// A field that should be a decimal integer was not; the field's text.
    ParseInt(String),
    /// A datagram was not valid UTF-8.
    Utf8Parse,
    /// A reply channel was dropped before an answer was sent.
    Recv,
    /// The event socket failed; fatal to the actor.
    UnsolicitedIoError(String),
    WifiStationRequestChannelClosed,
    WifiStationEventChannelClosed,
    WifiApRequestChannelClosed,
    WifiApEventChannelClosed,
    /// An access-point broadcast found no subscriber.
    WifiApBroadcast,
    /// A station broadcast found no subscriber.
    WifiStaBroadcast,
    /// The reply channel of a pending select was dropped before delivery.
    WifiSelect,
    /// The daemon's socket could not be reached within the retry period.
    TimeoutOpeningSocket(String),
    /// The daemon's socket exists but may not be connected to.
    PermissionDeniedOpeningSocket(String),
}

} // verus!
