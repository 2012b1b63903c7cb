//! The supplicant's `STATUS` reply.
use vstd::prelude::*;
use crate::error::Error;
use crate::kv::{kv_entries, map_of, pair_views, parse_entries, lookup};
use crate::text::chars_of;
use crate::wire::{decimal, push_decimal, text_of};

verus! {

/// The `key=value` pairs of a status reply.
#[derive(Debug, Clone)]
pub struct Status {
    entries: Vec<(String, String)>,
}

impl View for Status {
    type V = Map<Seq<char>, Seq<char>>;

    closed spec fn view(&self) -> Map<Seq<char>, Seq<char>> {
        map_of(pair_views(self.entries@))
    }
}

/// Parses a status reply into its map of keys to values.
pub fn parse_status(response: &str) -> (r: Result<Status, Error>)
    ensures
        r is Ok <==> kv_entries(response@) is Some,
        r matches Ok(s) ==> s@ == map_of(kv_entries(response@)->0),
        r matches Err(e) ==> (e matches Error::ParsingWifiStatus { s } && s@ == response@),
{
    let text = chars_of(response);
    match parse_entries(&text) {
        Some(entries) => Ok(Status { entries }),
        None => Err(Error::ParsingWifiStatus { s: text_of(&text) }),
    }
}

impl Status {
    /// The reply's entries in line order, each `(key, value)`; later entries
    /// override earlier ones with the same key.
    pub fn entries(&self) -> (r: &Vec<(String, String)>)
        ensures
            map_of(pair_views(r@)) == self@,
    {
        &self.entries
    }

    /// The value of `key`, if the reply has it.
    pub fn get(&self, key: &str) -> (r: Option<String>)
        ensures
            r is Some <==> self@.contains_key(key@),
            r matches Some(v) ==> v@ == self@[key@],
    {
        lookup(&self.entries, key)
    }
}

/// The status says that the network `id` is the current one.
pub open spec fn reports_network(st: Map<Seq<char>, Seq<char>>, id: usize) -> bool {
    st.contains_key("id"@) && st["id"@] == decimal(id as nat)
}

/// Whether the status names network `id` as the current one.
pub fn is_current_network(status: &Status, id: usize) -> (r: bool)
    ensures
        r == reports_network(status@, id),
{
    let mut digits: Vec<char> = Vec::new();
    push_decimal(id, &mut digits);
    assert(digits@ =~= decimal(id as nat));
    let want = text_of(&digits);
    match status.get("id") {
        Some(current) => current == want,
        None => false,
    }
}

} // verus!
