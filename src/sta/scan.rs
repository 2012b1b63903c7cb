//! The supplicant's scan table (`SCAN_RESULTS`).
use vstd::prelude::*;
use vstd::multiset::Multiset;
use crate::error::Error;
use crate::number::{isize_of, parse_isize};
use crate::text::{split_on, words, views, chars_of, split, split_words};
use crate::wire::{push_chars, text_of, utf8_chars};
use vstd::utf8::{valid_utf8, decode_utf8};

verus! {

broadcast use vstd::seq_lib::group_to_multiset_ensures, vstd::multiset::group_multiset_axioms;

/// One access point seen by a scan.
#[derive(Debug, Clone)]
pub struct ScanResult {
    pub mac: String,
    pub frequency: String,
    pub signal: isize,
    pub flags: String,
    pub name: String,
}

/// A scan row over character sequences.
pub struct ScanView {
    pub mac: Seq<char>,
    pub frequency: Seq<char>,
    pub signal: int,
    pub flags: Seq<char>,
    pub name: Seq<char>,
}

impl View for ScanResult {
    type V = ScanView;

    open spec fn view(&self) -> ScanView {
        ScanView {
            mac: self.mac@,
            frequency: self.frequency@,
            signal: self.signal as int,
            flags: self.flags@,
            name: self.name@,
        }
    }
}

pub open spec fn scan_views(v: Seq<ScanResult>) -> Seq<ScanView> {
    Seq::new(v.len(), |i: int| v[i]@)
}

/// Words joined by single spaces.
pub open spec fn joined(ws: Seq<Seq<char>>) -> Seq<char>
    decreases ws.len(),
{
    if ws.len() == 0 {
        Seq::empty()
    } else if ws.len() == 1 {
        ws[0]
    } else {
        joined(ws.drop_last()) + " "@ + ws.last()
    }
}

/// A table row: address, frequency, signal, flags, then a name of one or
/// more words; rows without a name or with a signal that is no `isize` are
/// left out.
pub open spec fn scan_row(line: Seq<char>) -> Option<ScanView> {
    let w = words(line);
    if w.len() >= 5 && isize_of(w[2]) is Some {
        Some(
            ScanView {
                mac: w[0],
                frequency: w[1],
                signal: isize_of(w[2])->0 as int,
                flags: w[3],
                name: joined(w.subrange(4, w.len() as int)),
            },
        )
    } else {
        None
    }
}

pub open spec fn scan_rows(lines: Seq<Seq<char>>) -> Seq<ScanView>
    decreases lines.len(),
{
    if lines.len() == 0 {
        Seq::empty()
    } else {
        let prev = scan_rows(lines.drop_last());
        match scan_row(lines.last()) {
            Some(r) => prev.push(r),
            None => prev,
        }
    }
}

/// The rows of a scan table: every line after the header line.
pub open spec fn scan_table(response: Seq<char>) -> Seq<ScanView> {
    scan_rows(split_on(response, '\n').drop_first())
}

/// Signals never decrease along `v`.
pub open spec fn sorted_by_signal(v: Seq<ScanResult>) -> bool {
    forall|i: int, j: int| 0 <= i < j < v.len() ==> v[i].signal <= v[j].signal
}

fn join_words(ws: &Vec<Vec<char>>, from: usize) -> (r: String)
    requires
        from < ws@.len(),
    ensures
        r@ == joined(views(ws@).subrange(from as int, ws@.len() as int)),
{
    let mut out: Vec<char> = Vec::new();
    let mut k: usize = from;
    assert(views(ws@).subrange(from as int, from as int) =~= Seq::<Seq<char>>::empty());
    while k < ws.len()
        invariant
            from <= k <= ws@.len(),
            out@ == joined(views(ws@).subrange(from as int, k as int)),
        decreases ws@.len() - k,
    {
        let ghost before = views(ws@).subrange(from as int, k as int);
        let ghost after = views(ws@).subrange(from as int, k + 1);
        assert(after.drop_last() =~= before);
        if k > from {
            push_chars(&mut out, chars_of(" ").as_slice());
        }
        push_chars(&mut out, ws[k].as_slice());
        proof {
            if k == from {
                assert(out@ =~= after[0]);
            } else {
                assert(out@ =~= joined(before) + " "@ + after.last());
            }
        }
        k = k + 1;
    }
    text_of(&out)
}

fn parse_row(line: &Vec<char>) -> (r: Option<ScanResult>)
    ensures
        r matches Some(x) ==> scan_row(line@) == Some(x@),
        r is None ==> scan_row(line@) is None,
{
    let w = split_words(line.as_slice());
    if w.len() < 5 {
        return None;
    }
    assert(views(w@)[2] == w@[2]@);
    match parse_isize(w[2].as_slice(), 0, w[2].len()) {
        None => {
            assert(w@[2]@.subrange(0, w@[2]@.len() as int) =~= w@[2]@);
            None
        },
        Some(signal) => {
            assert(w@[2]@.subrange(0, w@[2]@.len() as int) =~= w@[2]@);
            let r = ScanResult {
                mac: text_of(&w[0]),
                frequency: text_of(&w[1]),
                signal,
                flags: text_of(&w[3]),
                name: join_words(&w, 4),
            };
            assert(r@ == scan_row(line@)->0);
            Some(r)
        },
    }
}

/// Sorts scan results so that signals never decrease.
pub fn sort_by_signal(v: Vec<ScanResult>) -> (r: Vec<ScanResult>)
    ensures
        sorted_by_signal(r@),
        r@.to_multiset() == v@.to_multiset(),
{
    let mut rest = v;
    let mut out: Vec<ScanResult> = Vec::new();
    while rest.len() > 0
        invariant
            sorted_by_signal(out@),
            out@.to_multiset().add(rest@.to_multiset()) == v@.to_multiset(),
        decreases rest@.len(),
    {
        let ghost before = rest@;
        let x = rest.pop().unwrap();
        assert(before == rest@.push(x));
        let mut pos: usize = 0;
        while pos < out.len() && out[pos].signal < x.signal
            invariant
                pos <= out@.len(),
                forall|k: int| 0 <= k < pos ==> out@[k].signal < x.signal,
            decreases out@.len() - pos,
        {
            pos = pos + 1;
        }
        let ghost old_out = out@;
        out.insert(pos, x);
        assert(out@ == old_out.insert(pos as int, x));
        assert forall|i: int, j: int| 0 <= i < j < out@.len() implies out@[i].signal
            <= out@[j].signal by {
            if j < pos {
                assert(out@[i] == old_out[i] && out@[j] == old_out[j]);
            } else if j == pos {
                assert(out@[i] == old_out[i]);
            } else if i < pos {
                assert(out@[i] == old_out[i] && out@[j] == old_out[j - 1]);
                if pos < old_out.len() {
                    assert(old_out[pos as int].signal >= x.signal);
                }
            } else if i == pos {
                assert(out@[j] == old_out[j - 1]);
                assert(old_out[pos as int].signal >= x.signal);
            } else {
                assert(out@[i] == old_out[i - 1] && out@[j] == old_out[j - 1]);
            }
        }
        assert(out@.to_multiset().add(rest@.to_multiset()) =~= v@.to_multiset());
    }
    assert(rest@.to_multiset() =~= Multiset::empty());
    assert(out@.to_multiset() =~= v@.to_multiset());
    out
}

impl ScanResult {
    /// Parses a scan table; the header line is skipped and malformed rows
    /// are left out.
    pub fn vec_from_str(response: &str) -> (r: Result<Vec<ScanResult>, Error>)
        ensures
            r matches Ok(v) && scan_views(v@) == scan_table(response@),
    {
        let text = chars_of(response);
        Ok(rows_of(&text))
    }
}

fn rows_of(text: &Vec<char>) -> (results: Vec<ScanResult>)
    ensures
        scan_views(results@) == scan_table(text@),
{
        let lines = split(text.as_slice(), '\n');
        let ghost all = views(lines@);
        let mut results: Vec<ScanResult> = Vec::new();
        let mut i: usize = 1;
        proof {
            crate::text::lemma_split_nonempty(text@, '\n');
            assert(all.subrange(1, 1) =~= Seq::<Seq<char>>::empty());
        }
        while i < lines.len()
            invariant
                1 <= i <= lines@.len(),
                all == views(lines@),
                scan_views(results@) == scan_rows(all.subrange(1, i as int)),
            decreases lines@.len() - i,
        {
            assert(all.subrange(1, i + 1).drop_last() =~= all.subrange(1, i as int));
            assert(all.subrange(1, i + 1).last() == lines@[i as int]@);
            match parse_row(&lines[i]) {
                Some(row) => {
                    results.push(row);
                    assert(scan_views(results@) =~= scan_rows(all.subrange(1, i as int)).push(
                        scan_row(lines@[i as int]@)->0,
                    ));
                },
                None => {},
            }
            i = i + 1;
        }
        assert(all.subrange(1, lines@.len() as int) =~= all.drop_first());
        results
}

/// The scan result in a `SCAN_RESULTS` reply, sorted by signal.
pub fn scan_reply(datagram: &[u8]) -> (r: Result<Vec<ScanResult>, Error>)
    ensures
        r is Ok <==> valid_utf8(datagram@),
        r matches Err(e) ==> e == Error::Utf8Parse,
        r matches Ok(v) ==> sorted_by_signal(v@) && exists|p: Seq<ScanResult>|
            scan_views(p) == scan_table(decode_utf8(datagram@)) && #[trigger] p.to_multiset()
                == v@.to_multiset(),
{
    match utf8_chars(datagram) {
        None => Err(Error::Utf8Parse),
        Some(text) => {
            let rows = rows_of(&text);
            let ghost p = rows@;
            let sorted = sort_by_signal(rows);
            assert(scan_views(p) == scan_table(decode_utf8(datagram@)));
            Ok(sorted)
        },
    }
}

} // verus!
