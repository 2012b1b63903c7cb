//! Framing shared by both daemons: decoding reply datagrams, the `OK`
//! acknowledgement, and decimal numbers in command lines.
use vstd::prelude::*;
use vstd::utf8::{valid_utf8, decode_utf8};
use crate::error::Error;
use crate::text::{trim, trim_end, trim_end_index, trim_bounds, range_is, chars_of, string_of};

verus! {

pub open spec fn digit_char(d: nat) -> char {
    if d == 0 {
        '0'
    } else if d == 1 {
        '1'
    } else if d == 2 {
        '2'
    } else if d == 3 {
        '3'
    } else if d == 4 {
        '4'
    } else if d == 5 {
        '5'
    } else if d == 6 {
        '6'
    } else if d == 7 {
        '7'
    } else if d == 8 {
        '8'
    } else {
        '9'
    }
}

/// The decimal digits of `n`, without leading zeros.
pub open spec fn decimal(n: nat) -> Seq<char>
    decreases n,
{
    if n < 10 {
        seq![digit_char(n)]
    } else {
        decimal(n / 10).push(digit_char(n % 10))
    }
}

fn digit(d: usize) -> (c: char)
    requires
        d < 10,
    ensures
        c == digit_char(d as nat),
{
    if d == 0 {
        '0'
    } else if d == 1 {
        '1'
    } else if d == 2 {
        '2'
    } else if d == 3 {
        '3'
    } else if d == 4 {
        '4'
    } else if d == 5 {
        '5'
    } else if d == 6 {
        '6'
    } else if d == 7 {
        '7'
    } else if d == 8 {
        '8'
    } else {
        '9'
    }
}

/// Appends the decimal digits of `n` to `out`.
pub fn push_decimal(n: usize, out: &mut Vec<char>)
    ensures
        final(out)@ == old(out)@ + decimal(n as nat),
    decreases n,
{
    if n >= 10 {
        push_decimal(n / 10, out);
    }
    out.push(digit(n % 10));
    proof {
        if n >= 10 {
            assert(final(out)@ =~= old(out)@ + decimal(n as nat));
        } else {
            assert(final(out)@ =~= old(out)@ + decimal(n as nat));
        }
    }
}

/// Relies on `std::str::from_utf8`: it accepts exactly the valid UTF-8
/// sequences, and the text it gives holds the characters they encode.
#[verifier::external_body]
fn utf8_text(b: &[u8]) -> (r: Option<String>)
    ensures
        r is Some <==> valid_utf8(b@),
        r matches Some(s) ==> s@ == decode_utf8(b@),
{
    match std::str::from_utf8(b) {
        Ok(s) => Some(s.to_string()),
        Err(_) => None,
    }
}

/// The characters a datagram encodes, if it is valid UTF-8.
pub fn utf8_chars(b: &[u8]) -> (r: Option<Vec<char>>)
    ensures
        r is Some <==> valid_utf8(b@),
        r matches Some(v) ==> v@ == decode_utf8(b@),
{
    match utf8_text(b) {
        Some(s) => Some(chars_of(s.as_str())),
        None => None,
    }
}

/// The text of a reply datagram without its trailing whitespace.
pub open spec fn reply_text(b: Seq<u8>) -> Seq<char> {
    trim_end(decode_utf8(b))
}

/// Decodes a reply datagram and drops its trailing whitespace.
pub fn decode_reply(datagram: &[u8]) -> (r: Result<Vec<char>, Error>)
    ensures
        r is Ok <==> valid_utf8(datagram@),
        r matches Ok(v) ==> v@ == reply_text(datagram@),
        r matches Err(e) ==> e == Error::Utf8Parse,
{
    match utf8_chars(datagram) {
        None => Err(Error::Utf8Parse),
        Some(mut v) => {
            let e = trim_end_index(v.as_slice(), 0, v.len());
            v.truncate(e);
            assert(v@ =~= reply_text(datagram@)) by {
                assert(decode_utf8(datagram@).subrange(0, decode_utf8(datagram@).len() as int)
                    =~= decode_utf8(datagram@));
            }
            Ok(v)
        }
    }
}

/// Checks the daemon's acknowledgement of a command: `OK`, surrounded by
/// whitespace or not.
pub fn expect_ok(datagram: &[u8]) -> (r: Result<(), Error>)
    ensures
        r is Ok <==> valid_utf8(datagram@) && trim(reply_text(datagram@)) == "OK"@,
        !valid_utf8(datagram@) ==> r == Err::<(), Error>(Error::Utf8Parse),
        r matches Err(Error::UnexpectedResponse(t)) ==> t@ == reply_text(datagram@),
        valid_utf8(datagram@) && r is Err ==> r->Err_0 is UnexpectedResponse,
{
    let v = decode_reply(datagram)?;
    let ok = chars_of("OK");
    let (b, e) = trim_bounds(v.as_slice(), 0, v.len());
    assert(v@.subrange(0, v@.len() as int) =~= v@);
    if range_is(v.as_slice(), b, e, ok.as_slice()) {
        Ok(())
    } else {
        assert(v@.subrange(0, v@.len() as int) =~= v@);
        Err(Error::UnexpectedResponse(string_of(v.as_slice(), 0, v.len())))
    }
}

/// Appends the characters `s` to `out`.
pub fn push_chars(out: &mut Vec<char>, s: &[char])
    ensures
        final(out)@ == old(out)@ + s@,
{
    let mut i: usize = 0;
    while i < s.len()
        invariant
            i <= s@.len(),
            out@ == old(out)@ + s@.subrange(0, i as int),
        decreases s@.len() - i,
    {
        out.push(s[i]);
        i = i + 1;
        assert(out@ =~= old(out)@ + s@.subrange(0, i as int));
    }
    assert(s@.subrange(0, i as int) =~= s@);
}

/// Appends the characters of `s` to `out`.
pub fn push_text(out: &mut Vec<char>, s: &str)
    ensures
        final(out)@ == old(out)@ + s@,
{
    let v = chars_of(s);
    push_chars(out, v.as_slice());
}

/// The string of the characters `v`.
pub fn text_of(v: &Vec<char>) -> (r: String)
    ensures
        r@ == v@,
{
    assert(v@.subrange(0, v@.len() as int) =~= v@);
    string_of(v.as_slice(), 0, v.len())
}

} // verus!
