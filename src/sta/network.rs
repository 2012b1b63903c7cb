//! The supplicant's list of configured networks (`LIST_NETWORKS`), with the
//! name of each network asked for by a `GET_NETWORK <id> ssid` line.
use vstd::prelude::*;
use vstd::utf8::{valid_utf8, decode_utf8};
use crate::error::Error;
use crate::number::{usize_of, parse_usize};
use crate::text::{split_on, words, views, trim_char, chars_of, split, split_words, trim_char_bounds, string_of, lemma_split_nonempty};
use crate::wire::{push_chars, push_text, text_of, utf8_chars};

verus! {

/// A configured network.
#[derive(Debug, Clone)]
pub struct NetworkResult {
    pub network_id: usize,
    pub ssid: String,
    pub flags: String,
}

/// A configured network over character sequences.
pub struct NetworkView {
    pub network_id: usize,
    pub ssid: Seq<char>,
    pub flags: Seq<char>,
}

impl View for NetworkResult {
    type V = NetworkView;

    open spec fn view(&self) -> NetworkView {
        NetworkView { network_id: self.network_id, ssid: self.ssid@, flags: self.flags@ }
    }
}

pub open spec fn network_views(v: Seq<NetworkResult>) -> Seq<NetworkView> {
    Seq::new(v.len(), |i: int| v[i]@)
}

/// The lines that hold at least one word.
pub open spec fn worded(lines: Seq<Seq<char>>) -> Seq<Seq<char>>
    decreases lines.len(),
{
    if lines.len() == 0 {
        Seq::empty()
    } else if words(lines.last()).len() > 0 {
        worded(lines.drop_last()).push(lines.last())
    } else {
        worded(lines.drop_last())
    }
}

/// The rows of a network list whose name is asked for: every line after the
/// header that holds a word.
pub open spec fn listed_rows(response: Seq<char>) -> Seq<Seq<char>> {
    worded(split_on(response, '\n').drop_first())
}

/// The line that asks for the name of the network of a row.
pub open spec fn ssid_query(row: Seq<char>) -> Seq<char> {
    "GET_NETWORK "@ + words(row)[0] + " ssid"@
}

/// A row and the name the daemon gave for it: rows whose first word is no
/// `usize`, or that hold a single word, are left out.
pub open spec fn network_row(row: Seq<char>, reply: Seq<u8>) -> Option<NetworkView> {
    let w = words(row);
    if w.len() >= 2 && usize_of(w[0]) is Some {
        Some(
            NetworkView {
                network_id: usize_of(w[0])->0,
                ssid: trim_char(decode_utf8(reply), '"'),
                flags: w.last(),
            },
        )
    } else {
        None
    }
}

/// The networks of the first `k` rows, or `None` if one of their replies is
/// not UTF-8.
pub open spec fn network_rows(rows: Seq<Seq<char>>, replies: Seq<Seq<u8>>, k: int) -> Option<
    Seq<NetworkView>,
>
    decreases k,
{
    if k <= 0 {
        Some(Seq::empty())
    } else {
        match network_rows(rows, replies, k - 1) {
            None => None,
            Some(prev) => if !valid_utf8(replies[k - 1]) {
                None
            } else {
                match network_row(rows[k - 1], replies[k - 1]) {
                    Some(r) => Some(prev.push(r)),
                    None => Some(prev),
                }
            },
        }
    }
}

pub open spec fn byte_views(v: Seq<Vec<u8>>) -> Seq<Seq<u8>> {
    Seq::new(v.len(), |i: int| v[i]@)
}

/// The rows of a network list that ask for a name, in order.
fn rows_of(text: &Vec<char>) -> (r: Vec<Vec<char>>)
    ensures
        views(r@) == listed_rows(text@),
{
    let lines = split(text.as_slice(), '\n');
    let ghost all = views(lines@);
    let mut out: Vec<Vec<char>> = Vec::new();
    let mut i: usize = 1;
    proof {
        lemma_split_nonempty(text@, '\n');
        assert(all.subrange(1, 1) =~= Seq::<Seq<char>>::empty());
    }
    while i < lines.len()
        invariant
            1 <= i <= lines@.len(),
            all == views(lines@),
            views(out@) == worded(all.subrange(1, i as int)),
        decreases lines@.len() - i,
    {
        assert(all.subrange(1, i + 1).drop_last() =~= all.subrange(1, i as int));
        assert(all.subrange(1, i + 1).last() == lines@[i as int]@);
        let w = split_words(lines[i].as_slice());
        if w.len() > 0 {
            let mut row: Vec<char> = Vec::new();
            push_chars(&mut row, lines[i].as_slice());
            assert(row@ =~= lines@[i as int]@);
            let ghost before = out@;
            out.push(row);
            assert(views(out@) =~= views(before).push(lines@[i as int]@));
        }
        i = i + 1;
    }
    assert(all.subrange(1, lines@.len() as int) =~= all.drop_first());
    out
}

impl NetworkResult {
    /// The lines that ask the daemon for the name of each listed network,
    /// one per row, in order.
    pub fn ssid_queries(response: &str) -> (r: Vec<String>)
        ensures
            r@.len() == listed_rows(response@).len(),
            forall|k: int| 0 <= k < r@.len() ==> #[trigger] r@[k]@ == ssid_query(listed_rows(response@)[k]),
    {
        let rows = rows_of(&chars_of(response));
        let mut out: Vec<String> = Vec::new();
        let mut k: usize = 0;
        while k < rows.len()
            invariant
                k <= rows@.len(),
                views(rows@) == listed_rows(response@),
                out@.len() == k,
                forall|j: int| 0 <= j < k ==> #[trigger] out@[j]@ == ssid_query(listed_rows(response@)[j]),
            decreases rows@.len() - k,
        {
            let w = split_words(rows[k].as_slice());
            assert(views(rows@)[k as int] == rows@[k as int]@);
            assert(words(rows@[k as int]@).len() > 0) by {
                lemma_worded_rows(views(rows@), k as int);
            }
            let mut line = chars_of("GET_NETWORK ");
            push_chars(&mut line, w[0].as_slice());
            push_text(&mut line, " ssid");
            assert(views(w@)[0] == w@[0]@);
            out.push(text_of(&line));
            k = k + 1;
        }
        out
    }

    /// The configured networks of a network list, given the daemon's reply to
    /// each line of `ssid_queries`, in the same order. Rows beyond the
    /// replies given are left out.
    pub fn vec_from_str(response: &str, ssid_replies: &Vec<Vec<u8>>) -> (r: Result<
        Vec<NetworkResult>,
        Error,
    >)
        ensures
            ({
                let rows = listed_rows(response@);
                let k = if rows.len() < ssid_replies@.len() {
                    rows.len() as int
                } else {
                    ssid_replies@.len() as int
                };
                match network_rows(rows, byte_views(ssid_replies@), k) {
                    Some(v) => r matches Ok(x) && network_views(x@) == v,
                    None => r == Err::<Vec<NetworkResult>, Error>(Error::Utf8Parse),
                }
            }),
    {
        let rows = rows_of(&chars_of(response));
        let ghost rv = listed_rows(response@);
        let ghost bv = byte_views(ssid_replies@);
        let n = if rows.len() < ssid_replies.len() {
            rows.len()
        } else {
            ssid_replies.len()
        };
        let mut out: Vec<NetworkResult> = Vec::new();
        let mut k: usize = 0;
        while k < n
            invariant
                k <= n,
                n <= rows@.len(),
                n <= ssid_replies@.len(),
                views(rows@) == rv,
                rv == listed_rows(response@),
                bv == byte_views(ssid_replies@),
                n == if rows@.len() < ssid_replies@.len() {
                    rows@.len()
                } else {
                    ssid_replies@.len()
                },
                network_rows(rv, bv, k as int) == Some(network_views(out@)),
            decreases n - k,
        {
            assert(views(rows@)[k as int] == rows@[k as int]@);
            assert(bv[k as int] == ssid_replies@[k as int]@);
            let reply = match utf8_chars(ssid_replies[k].as_slice()) {
                Some(t) => t,
                None => {
                    proof {
                        assert(!valid_utf8(bv[k as int]));
                        assert(network_rows(rv, bv, k as int + 1) is None);
                        lemma_rows_fail_extends(rv, bv, k as int + 1, n as int);
                        assert(rows@.len() == rv.len());
                    }
                    return Err(Error::Utf8Parse);
                },
            };
            let w = split_words(rows[k].as_slice());
            if w.len() >= 2 {
                assert(views(w@)[0] == w@[0]@);
                assert(w@[0]@.subrange(0, w@[0]@.len() as int) =~= w@[0]@);
                match parse_usize(w[0].as_slice(), 0, w[0].len()) {
                    Some(id) => {
                        let (a, b) = trim_char_bounds(reply.as_slice(), '"');
                        let last = w.len() - 1;
                        assert(views(w@)[last as int] == w@[last as int]@);
                        let row = NetworkResult {
                            network_id: id,
                            ssid: string_of(reply.as_slice(), a, b),
                            flags: text_of(&w[last]),
                        };
                        let ghost before = out@;
                        out.push(row);
                        assert(network_views(out@) =~= network_views(before).push(row@));
                    },
                    None => {},
                }
            }
            k = k + 1;
        }
        Ok(out)
    }
}

proof fn lemma_worded_rows(rows: Seq<Seq<char>>, k: int)
    requires
        exists|lines: Seq<Seq<char>>| rows == worded(lines),
        0 <= k < rows.len(),
    ensures
        words(rows[k]).len() > 0,
{
    let lines = choose|lines: Seq<Seq<char>>| rows == worded(lines);
    lemma_worded_all(lines, k);
}

proof fn lemma_worded_all(lines: Seq<Seq<char>>, k: int)
    requires
        0 <= k < worded(lines).len(),
    ensures
        words(worded(lines)[k]).len() > 0,
    decreases lines.len(),
{
    if lines.len() > 0 {
        let prev = worded(lines.drop_last());
        if words(lines.last()).len() > 0 {
            if k < prev.len() {
                lemma_worded_all(lines.drop_last(), k);
            }
        } else {
            lemma_worded_all(lines.drop_last(), k);
        }
    }
}

proof fn lemma_rows_fail_extends(rows: Seq<Seq<char>>, replies: Seq<Seq<u8>>, k: int, n: int)
    requires
        1 <= k <= n,
        network_rows(rows, replies, k) is None,
    ensures
        network_rows(rows, replies, n) is None,
    decreases n - k,
{
    if k < n {
        lemma_rows_fail_extends(rows, replies, k + 1, n);
    }
}

} // verus!
