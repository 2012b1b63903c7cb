//! The supplicant's command lines, one per datagram.
use vstd::prelude::*;
use crate::text::chars_of;
use crate::wire::{decimal, push_decimal, push_chars, push_text, text_of};

verus! {

/// Key management suites that a network can be set to.
#[derive(Debug, Clone, Copy, PartialEq, Eq, Structural)]
pub enum KeyMgmt {
    Open,
    WpaPsk,
    WpaEap,
    Ieee8021x,
    Sae,
}

/// The daemon's name of a key management suite.
pub open spec fn key_mgmt_name(k: KeyMgmt) -> Seq<char> {
    match k {
        KeyMgmt::Open => "NONE"@,
        KeyMgmt::WpaPsk => "WPA-PSK"@,
        KeyMgmt::WpaEap => "WPA-EAP"@,
        KeyMgmt::Ieee8021x => "IEEE8021X"@,
        KeyMgmt::Sae => "SAE"@,
    }
}

impl KeyMgmt {
    /// The daemon's name of this suite.
    pub fn name(&self) -> (r: &'static str)
        ensures
            r@ == key_mgmt_name(*self),
    {
        match self {
            KeyMgmt::Open => "NONE",
            KeyMgmt::WpaPsk => "WPA-PSK",
            KeyMgmt::WpaEap => "WPA-EAP",
            KeyMgmt::Ieee8021x => "IEEE8021X",
            KeyMgmt::Sae => "SAE",
        }
    }
}

/// One parameter of a configured network.
#[derive(Debug, Clone, PartialEq, Eq)]
pub enum SetNetwork {
    Ssid(String),
    Bssid(String),
    Psk(String),
    KeyMgmt(KeyMgmt),
}

/// The part of a `SET_NETWORK` line after the network id.
pub open spec fn parameter_text(p: SetNetwork) -> Seq<char> {
    match p {
        SetNetwork::Ssid(s) => "ssid \""@ + s@ + "\""@,
        SetNetwork::Bssid(b) => "bssid "@ + b@,
        SetNetwork::Psk(k) => "psk \""@ + k@ + "\""@,
        SetNetwork::KeyMgmt(m) => "key_mgmt "@ + key_mgmt_name(m),
    }
}

/// A command to the supplicant, without its reply channel.
#[derive(Debug, Clone, PartialEq, Eq)]
pub enum Command {
    Custom(String),
    Status,
    ListNetworks,
    GetNetworkSsid(String),
    Scan,
    ScanResults,
    AddNetwork,
    SetNetwork(usize, SetNetwork),
    SaveConfig,
    RemoveNetwork(usize),
    RemoveAllNetworks,
    SelectNetwork(usize),
    Attach,
    LogLevelDebug,
}

/// The exact line that carries a command.
pub open spec fn line_of(c: Command) -> Seq<char> {
    match c {
        Command::Custom(s) => s@,
        Command::Status => "STATUS"@,
        Command::ListNetworks => "LIST_NETWORKS"@,
        Command::GetNetworkSsid(id) => "GET_NETWORK "@ + id@ + " ssid"@,
        Command::Scan => "SCAN"@,
        Command::ScanResults => "SCAN_RESULTS"@,
        Command::AddNetwork => "ADD_NETWORK"@,
        Command::SetNetwork(id, p) => "SET_NETWORK "@ + decimal(id as nat) + " "@
            + parameter_text(p),
        Command::SaveConfig => "SAVE_CONFIG"@,
        Command::RemoveNetwork(id) => "REMOVE_NETWORK "@ + decimal(id as nat),
        Command::RemoveAllNetworks => "REMOVE_NETWORK all"@,
        Command::SelectNetwork(id) => "SELECT_NETWORK "@ + decimal(id as nat),
        Command::Attach => "ATTACH"@,
        Command::LogLevelDebug => "LOG_LEVEL DEBUG"@,
    }
}

fn push_parameter(out: &mut Vec<char>, p: &SetNetwork)
    ensures
        final(out)@ == old(out)@ + parameter_text(*p),
{
    match p {
        SetNetwork::Ssid(s) => {
            push_text(out, "ssid \"");
            push_text(out, s.as_str());
            push_text(out, "\"");
            assert(final(out)@ =~= old(out)@ + parameter_text(*p));
        },
        SetNetwork::Bssid(b) => {
            push_text(out, "bssid ");
            push_text(out, b.as_str());
            assert(final(out)@ =~= old(out)@ + parameter_text(*p));
        },
        SetNetwork::Psk(k) => {
            push_text(out, "psk \"");
            push_text(out, k.as_str());
            push_text(out, "\"");
            assert(final(out)@ =~= old(out)@ + parameter_text(*p));
        },
        SetNetwork::KeyMgmt(m) => {
            push_text(out, "key_mgmt ");
            push_text(out, m.name());
            assert(final(out)@ =~= old(out)@ + parameter_text(*p));
        },
    }
}

/// `head` followed by the decimal digits of `n`.
fn numbered(head: &str, n: usize) -> (r: Vec<char>)
    ensures
        r@ == head@ + decimal(n as nat),
{
    let mut out = chars_of(head);
    push_decimal(n, &mut out);
    out
}

impl Command {
    /// The line that carries this command.
    pub fn line(&self) -> (r: String)
        ensures
            r@ == line_of(*self),
    {
        let v: Vec<char> = match self {
            Command::Custom(s) => chars_of(s.as_str()),
            Command::Status => chars_of("STATUS"),
            Command::ListNetworks => chars_of("LIST_NETWORKS"),
            Command::GetNetworkSsid(id) => {
                let mut out = chars_of("GET_NETWORK ");
                push_text(&mut out, id.as_str());
                push_text(&mut out, " ssid");
                out
            },
            Command::Scan => chars_of("SCAN"),
            Command::ScanResults => chars_of("SCAN_RESULTS"),
            Command::AddNetwork => chars_of("ADD_NETWORK"),
            Command::SetNetwork(id, p) => {
                let mut out = numbered("SET_NETWORK ", *id);
                push_text(&mut out, " ");
                push_parameter(&mut out, p);
                out
            },
            Command::SaveConfig => chars_of("SAVE_CONFIG"),
            Command::RemoveNetwork(id) => numbered("REMOVE_NETWORK ", *id),
            Command::RemoveAllNetworks => chars_of("REMOVE_NETWORK all"),
            Command::SelectNetwork(id) => numbered("SELECT_NETWORK ", *id),
            Command::Attach => chars_of("ATTACH"),
            Command::LogLevelDebug => chars_of("LOG_LEVEL DEBUG"),
        };
        text_of(&v)
    }
}

} // verus!
