//! What the supplicant's replies to single commands mean.
use vstd::prelude::*;
use vstd::utf8::valid_utf8;
use crate::error::Error;
use crate::kv::{kv_entries, map_of};
use crate::number::{usize_of, parse_usize};
use crate::sta::status::{Status, parse_status};
use crate::wire::{decode_reply, reply_text, text_of};

verus! {

/// The text of a reply, as it is handed to a custom command's caller.
pub fn text_reply(datagram: &[u8]) -> (r: Result<String, Error>)
    ensures
        r is Ok <==> valid_utf8(datagram@),
        r matches Ok(s) ==> s@ == reply_text(datagram@),
        r matches Err(e) ==> e == Error::Utf8Parse,
{
    let v = decode_reply(datagram)?;
    Ok(text_of(&v))
}

/// The status in a `STATUS` reply.
pub fn status_reply(datagram: &[u8]) -> (r: Result<Status, Error>)
    ensures
        !valid_utf8(datagram@) ==> r == Err::<Status, Error>(Error::Utf8Parse),
        valid_utf8(datagram@) ==> (r is Ok <==> kv_entries(reply_text(datagram@)) is Some),
        r matches Ok(s) ==> s@ == map_of(kv_entries(reply_text(datagram@))->0),
        valid_utf8(datagram@) && r is Err ==> r->Err_0 is ParsingWifiStatus,
        r matches Err(Error::ParsingWifiStatus { s }) ==> s@ == reply_text(datagram@),
{
    let text = text_of(&decode_reply(datagram)?);
    parse_status(text.as_str())
}

/// The id of the network that an `ADD_NETWORK` reply announces.
pub fn network_id_reply(datagram: &[u8]) -> (r: Result<usize, Error>)
    ensures
        !valid_utf8(datagram@) ==> r == Err::<usize, Error>(Error::Utf8Parse),
        valid_utf8(datagram@) ==> match usize_of(reply_text(datagram@)) {
            Some(n) => r == Ok::<usize, Error>(n),
            None => r matches Err(Error::ParseInt(t)) && t@ == reply_text(datagram@),
        },
{
    let v = decode_reply(datagram)?;
    assert(v@.subrange(0, v@.len() as int) =~= v@);
    match parse_usize(v.as_slice(), 0, v.len()) {
        Some(n) => Ok(n),
        None => Err(Error::ParseInt(text_of(&v))),
    }
}

} // verus!
