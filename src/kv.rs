//! Replies made of `key=value` lines (`STATUS`, `GET_CONFIG`).
//!
//! A line is blank, or a key and a value around its first `=`, each without
//! surrounding whitespace, the key not empty. Any other line makes the whole
//! reply malformed. A later line overrides an earlier one with the same key.
use vstd::prelude::*;
use crate::wire::text_of;
use crate::text::{is_ws, trim_start, trim_end, occurs_at, contains, chars_of, 
    trim, split_on, first_occurrence, views, split, find, trim_bounds, string_of, lemma_split_nonempty,
};

verus! {

/// The key and value of a line, if it is an entry.
pub open spec fn entry_of(line: Seq<char>) -> Option<(Seq<char>, Seq<char>)> {
    match first_occurrence(line, seq!['=']) {
        Some(i) => {
            let k = trim(line.subrange(0, i));
            let v = trim(line.subrange(i + 1, line.len() as int));
            if k.len() > 0 {
                Some((k, v))
            } else {
                None
            }
        },
        None => None,
    }
}

pub open spec fn is_blank(line: Seq<char>) -> bool {
    trim(line).len() == 0
}

/// The entries of `lines` in order, or `None` if a line is neither blank nor
/// an entry.
pub open spec fn entries_of(lines: Seq<Seq<char>>) -> Option<Seq<(Seq<char>, Seq<char>)>>
    decreases lines.len(),
{
    if lines.len() == 0 {
        Some(Seq::empty())
    } else {
        match entries_of(lines.drop_last()) {
            None => None,
            Some(prev) => match entry_of(lines.last()) {
                Some(e) => Some(prev.push(e)),
                None => if is_blank(lines.last()) {
                    Some(prev)
                } else {
                    None
                },
            },
        }
    }
}

pub open spec fn kv_entries(text: Seq<char>) -> Option<Seq<(Seq<char>, Seq<char>)>> {
    entries_of(split_on(text, '\n'))
}

/// The map that entries give, later entries overriding earlier ones.
pub open spec fn map_of(es: Seq<(Seq<char>, Seq<char>)>) -> Map<Seq<char>, Seq<char>>
    decreases es.len(),
{
    if es.len() == 0 {
        Map::empty()
    } else {
        map_of(es.drop_last()).insert(es.last().0, es.last().1)
    }
}

pub open spec fn pair_views(v: Seq<(String, String)>) -> Seq<(Seq<char>, Seq<char>)> {
    Seq::new(v.len(), |i: int| (v[i].0@, v[i].1@))
}

fn parse_line(line: &Vec<char>) -> (r: Option<(String, String)>)
    ensures
        r matches Some(e) ==> entry_of(line@) == Some((e.0@, e.1@)),
        r is None ==> entry_of(line@) is None,
{
    let mut eq: Vec<char> = Vec::new();
    eq.push('=');
    assert(eq@ =~= seq!['=']);
    let n = line.len();
    match find(line.as_slice(), eq.as_slice()) {
        None => None,
        Some(i) => {
            assert(i + 1 <= n);
            let (a, b) = trim_bounds(line.as_slice(), 0, i);
            let (c, d) = trim_bounds(line.as_slice(), i + 1, n);
            let ghost k = trim(line@.subrange(0, i as int));
            let ghost v = trim(line@.subrange(i + 1, n as int));
            assert(entry_of(line@) == if k.len() > 0 {
                Some((k, v))
            } else {
                None
            });
            if a == b {
                None
            } else {
                let key = string_of(line.as_slice(), a, b);
                let value = string_of(line.as_slice(), c, d);
                Some((key, value))
            }
        },
    }
}

fn blank(line: &Vec<char>) -> (r: bool)
    ensures
        r == is_blank(line@),
{
    let (a, b) = trim_bounds(line.as_slice(), 0, line.len());
    assert(line@.subrange(0, line@.len() as int) =~= line@);
    a == b
}

/// The entries of a `key=value` reply, in line order, or `None` if it is
/// malformed.
pub fn parse_entries(text: &Vec<char>) -> (r: Option<Vec<(String, String)>>)
    ensures
        r is Some <==> kv_entries(text@) is Some,
        r matches Some(v) ==> pair_views(v@) == kv_entries(text@)->0,
{
    let lines = split(text.as_slice(), '\n');
    let ghost all = views(lines@);
    let mut out: Vec<(String, String)> = Vec::new();
    let mut i: usize = 0;
    assert(all.subrange(0, 0) =~= Seq::<Seq<char>>::empty());
    while i < lines.len()
        invariant
            i <= lines@.len(),
            all == views(lines@),
            all == split_on(text@, '\n'),
            entries_of(all.subrange(0, i as int)) == Some(pair_views(out@)),
        decreases lines@.len() - i,
    {
        let ghost prefix = all.subrange(0, i as int);
        assert(all.subrange(0, i + 1).drop_last() =~= prefix);
        assert(all.subrange(0, i + 1).last() == lines@[i as int]@);
        match parse_line(&lines[i]) {
            None => {
                if !blank(&lines[i]) {
                    assert(entries_of(all.subrange(0, i + 1)) is None);
                    assert(views(lines@) == split_on(text@, '\n'));
                    proof {
                        lemma_entries_fail_extends(all, i as int + 1);
                    }
                    return None;
                }
            },
            Some(e) => {
                let ghost before = out@;
                out.push(e);
                assert(pair_views(out@) =~= pair_views(before).push((e.0@, e.1@)));
            },
        }
        i = i + 1;
    }
    assert(all.subrange(0, i as int) =~= all);
    Some(out)
}

/// A malformed prefix makes the whole reply malformed.
proof fn lemma_entries_fail_extends(lines: Seq<Seq<char>>, i: int)
    requires
        0 <= i <= lines.len(),
        entries_of(lines.subrange(0, i)) is None,
    ensures
        entries_of(lines) is None,
    decreases lines.len() - i,
{
    if i < lines.len() {
        assert(lines.subrange(0, i + 1).drop_last() =~= lines.subrange(0, i));
        lemma_entries_fail_extends(lines, i + 1);
    } else {
        assert(lines.subrange(0, i) =~= lines);
    }
}

/// A key that no entry has is not in the map.
pub proof fn lemma_map_of_absent(es: Seq<(Seq<char>, Seq<char>)>, k: Seq<char>)
    requires
        forall|j: int| 0 <= j < es.len() ==> (#[trigger] es[j]).0 != k,
    ensures
        !map_of(es).contains_key(k),
    decreases es.len(),
{
    if es.len() > 0 {
        let prev = es.drop_last();
        assert forall|j: int| 0 <= j < prev.len() implies (#[trigger] prev[j]).0 != k by {
            assert(prev[j] == es[j]);
        }
        lemma_map_of_absent(prev, k);
        assert(es[es.len() - 1].0 != k);
    }
}

/// The map holds the value of the last entry with a key.
pub proof fn lemma_map_of_last(es: Seq<(Seq<char>, Seq<char>)>, j: int)
    requires
        0 <= j < es.len(),
        forall|l: int| j < l < es.len() ==> (#[trigger] es[l]).0 != es[j].0,
    ensures
        map_of(es).contains_key(es[j].0),
        map_of(es)[es[j].0] == es[j].1,
    decreases es.len(),
{
    let prev = es.drop_last();
    if j < es.len() - 1 {
        assert(prev[j] == es[j]);
        assert forall|l: int| j < l < prev.len() implies (#[trigger] prev[l]).0 != prev[j].0 by {
            assert(prev[l] == es[l]);
        }
        lemma_map_of_last(prev, j);
        assert(es[es.len() - 1].0 != es[j].0);
    }
}

/// Every entry line of a well-formed reply stands in the parsed map with its
/// value, unless a later line gives the same key.
pub proof fn lemma_parsed_map_holds_every_line(text: Seq<char>, i: int)
    requires
        kv_entries(text) is Some,
        0 <= i < split_on(text, '\n').len(),
        entry_of(split_on(text, '\n')[i]) is Some,
        forall|j: int|
            i < j < split_on(text, '\n').len() ==> !(#[trigger] entry_of(split_on(text, '\n')[j])
                matches Some(e) && e.0 == (entry_of(split_on(text, '\n')[i])->0).0),
    ensures
        ({
            let (k, v) = entry_of(split_on(text, '\n')[i])->0;
            map_of(kv_entries(text)->0).contains_key(k) && map_of(kv_entries(text)->0)[k] == v
        }),
{
    lemma_line_in_map(split_on(text, '\n'), i);
}

proof fn lemma_line_in_map(lines: Seq<Seq<char>>, i: int)
    requires
        entries_of(lines) is Some,
        0 <= i < lines.len(),
        entry_of(lines[i]) is Some,
        forall|j: int|
            i < j < lines.len() ==> !(#[trigger] entry_of(lines[j]) matches Some(e) && e.0
                == (entry_of(lines[i])->0).0),
    ensures
        ({
            let (k, v) = entry_of(lines[i])->0;
            map_of(entries_of(lines)->0).contains_key(k) && map_of(entries_of(lines)->0)[k] == v
        }),
    decreases lines.len(),
{
    let prev = lines.drop_last();
    let k = (entry_of(lines[i])->0).0;
    let es = entries_of(lines)->0;
    let pes = entries_of(prev)->0;
    assert(entries_of(prev) is Some);
    if i == lines.len() - 1 {
        assert(es == pes.push(entry_of(lines[i])->0));
        assert(es.drop_last() =~= pes);
        assert(map_of(es) == map_of(pes).insert(k, (entry_of(lines[i])->0).1));
    } else {
        assert(prev[i] == lines[i]);
        assert forall|j: int|
            i < j < prev.len() implies !(#[trigger] entry_of(prev[j]) matches Some(e) && e.0
            == entry_of(prev[i])->0 .0) by {
            assert(prev[j] == lines[j]);
        }
        lemma_line_in_map(prev, i);
        assert(!(entry_of(lines[lines.len() - 1]) matches Some(e) && e.0 == k));
        match entry_of(lines.last()) {
            Some(e) => {
                assert(es == pes.push(e));
                assert(es.drop_last() =~= pes);
                assert(map_of(es) == map_of(pes).insert(e.0, e.1));
            },
            None => {
                assert(es == pes);
            },
        }
    }
}

/// `line` is `key=value` with its first `=` at `p`: a nonempty key free of
/// whitespace, then a value with no whitespace at either end.
pub open spec fn plain_entry_at(line: Seq<char>, p: int) -> bool {
    &&& 0 < p < line.len()
    &&& line[p] == '='
    &&& forall|i: int| 0 <= i < p ==> line[i] != '=' && !is_ws(#[trigger] line[i])
    &&& (p + 1 == line.len() || (!is_ws(line[p + 1]) && !is_ws(line.last())))
}

/// Where the `=` of a plain entry line stands.
pub open spec fn plain_split(line: Seq<char>) -> int {
    choose|p: int| plain_entry_at(line, p)
}

pub open spec fn plain_key(line: Seq<char>) -> Seq<char> {
    line.subrange(0, plain_split(line))
}

pub open spec fn plain_value(line: Seq<char>) -> Seq<char> {
    line.subrange(plain_split(line) + 1, line.len() as int)
}

/// A line of a plain reply: empty, or a plain entry.
pub open spec fn plain_line(line: Seq<char>) -> bool {
    line.len() == 0 || exists|p: int| plain_entry_at(line, p)
}

proof fn lemma_trim_fixed(s: Seq<char>)
    requires
        s.len() == 0 || (!is_ws(s[0]) && !is_ws(s.last())),
    ensures
        trim(s) == s,
{
    assert(trim_end(s) == s);
    assert(trim_start(s) == s);
}

proof fn lemma_first_equals(line: Seq<char>, p: int)
    requires
        plain_entry_at(line, p),
    ensures
        first_occurrence(line, seq!['=']) == Some(p),
{
    reveal(first_occurrence);
    let eq = seq!['='];
    assert(eq.len() == 1 && eq[0] == '=');
    assert(occurs_at(line, eq, p)) by {
        assert(line[p + 0] == eq[0]);
    }
    assert forall|j: int| 0 <= j < p implies !occurs_at(line, eq, j) by {
        assert(line[j] != '=');
        assert(line[j + 0] != eq[0]);
    }
    assert(contains(line, eq));
    let c = choose|c: int| occurs_at(line, eq, c) && forall|j: int| 0 <= j < c ==> !occurs_at(line, eq, j);
    assert(occurs_at(line, eq, c) && forall|j: int| 0 <= j < c ==> !occurs_at(line, eq, j));
    if c < p {
        assert(!occurs_at(line, eq, c));
    }
    if c > p {
        assert(!occurs_at(line, eq, p));
    }
}

/// A plain entry line is the entry of its key and value.
proof fn lemma_plain_entry(line: Seq<char>, p: int)
    requires
        plain_entry_at(line, p),
    ensures
        plain_split(line) == p,
        entry_of(line) == Some((line.subrange(0, p), line.subrange(p + 1, line.len() as int))),
{
    let q = plain_split(line);
    assert(plain_entry_at(line, q));
    if q < p {
        assert(line[q] != '=');
    }
    if p < q {
        assert(line[p] != '=');
    }
    lemma_first_equals(line, p);
    let k = line.subrange(0, p);
    let v = line.subrange(p + 1, line.len() as int);
    assert(k[0] == line[0]);
    assert(k.last() == line[p - 1]);
    lemma_trim_fixed(k);
    if v.len() > 0 {
        assert(v[0] == line[p + 1]);
        assert(v.last() == line.last());
    }
    lemma_trim_fixed(v);
}

proof fn lemma_empty_line(line: Seq<char>)
    requires
        line.len() == 0,
    ensures
        entry_of(line) is None,
        is_blank(line),
{
    reveal(first_occurrence);
    assert(!contains(line, seq!['=']));
    assert(trim_end(line) == line);
    assert(trim_start(line) == line);
}

proof fn lemma_plain_lines_parse(lines: Seq<Seq<char>>)
    requires
        forall|j: int| 0 <= j < lines.len() ==> plain_line(#[trigger] lines[j]),
    ensures
        entries_of(lines) is Some,
    decreases lines.len(),
{
    if lines.len() > 0 {
        let prev = lines.drop_last();
        assert forall|j: int| 0 <= j < prev.len() implies plain_line(#[trigger] prev[j]) by {
            assert(prev[j] == lines[j]);
        }
        lemma_plain_lines_parse(prev);
        let last = lines[lines.len() - 1];
        assert(plain_line(last));
        if last.len() == 0 {
            lemma_empty_line(last);
        } else {
            let p = choose|p: int| plain_entry_at(last, p);
            lemma_plain_entry(last, p);
        }
    }
}

/// A reply whose lines are each empty or a plain `key=value` line, with no
/// key given twice, parses; the map holds every entry line's key with its
/// value, and writing that pair back as `key=value` gives the line again.
pub proof fn lemma_plain_reply_round_trip(text: Seq<char>, i: int)
    requires
        forall|j: int|
            0 <= j < split_on(text, '\n').len() ==> plain_line(#[trigger] split_on(text, '\n')[j]),
        forall|j: int, l: int|
            0 <= j < l < split_on(text, '\n').len() && split_on(text, '\n')[j].len() > 0
                && split_on(text, '\n')[l].len() > 0 ==> plain_key(split_on(text, '\n')[j])
                != plain_key(split_on(text, '\n')[l]),
        0 <= i < split_on(text, '\n').len(),
        split_on(text, '\n')[i].len() > 0,
    ensures
        kv_entries(text) is Some,
        ({
            let line = split_on(text, '\n')[i];
            let m = map_of(kv_entries(text)->0);
            &&& m.contains_key(plain_key(line))
            &&& m[plain_key(line)] == plain_value(line)
            &&& plain_key(line) + seq!['='] + m[plain_key(line)] == line
        }),
{
    let lines = split_on(text, '\n');
    lemma_plain_lines_parse(lines);
    let line = lines[i];
    let p = choose|p: int| plain_entry_at(line, p);
    lemma_plain_entry(line, p);
    assert forall|j: int|
        i < j < lines.len() implies !(#[trigger] entry_of(lines[j]) matches Some(e) && e.0
        == (entry_of(lines[i])->0).0) by {
        let lj = lines[j];
        if lj.len() == 0 {
            lemma_empty_line(lj);
        } else {
            let q = choose|q: int| plain_entry_at(lj, q);
            lemma_plain_entry(lj, q);
        }
    }
    lemma_line_in_map(lines, i);
    assert(plain_key(line) + seq!['='] + plain_value(line) =~= line);
}

/// The value of `key` in the map of entries `es`, if it has one.
pub fn lookup(es: &Vec<(String, String)>, key: &str) -> (r: Option<String>)
    ensures
        r is Some <==> map_of(pair_views(es@)).contains_key(key@),
        r matches Some(v) ==> v@ == map_of(pair_views(es@))[key@],
{
    let wanted = text_of(&chars_of(key));
    let ghost pv = pair_views(es@);
    let mut j: usize = es.len();
    while j > 0
        invariant
            j <= es@.len(),
            pv == pair_views(es@),
            wanted@ == key@,
            forall|l: int| j <= l < pv.len() ==> (#[trigger] pv[l]).0 != key@,
        decreases j,
    {
        let e = &es[j - 1];
        if e.0 == wanted {
            proof {
                lemma_map_of_last(pv, j - 1);
            }
            return Some(e.1.clone());
        }
        j = j - 1;
    }
    proof {
        lemma_map_of_absent(pv, key@);
    }
    None
}

} // verus!
