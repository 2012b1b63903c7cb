//! Character-level primitives for the line-oriented control protocol.
use vstd::prelude::*;

verus! {

/// Unicode `White_Space`, the set that `char::is_whitespace` tests.
pub open spec fn is_ws(c: char) -> bool {
    let u = c as u32;
    (9 <= u && u <= 13) || u == 32 || u == 0x85 || u == 0xA0 || u == 0x1680 || (0x2000 <= u
        && u <= 0x200A) || u == 0x2028 || u == 0x2029 || u == 0x202F || u == 0x205F || u == 0x3000
}

pub fn is_whitespace(c: char) -> (r: bool)
    ensures
        r == is_ws(c),
{
    let u = c as u32;
    (9 <= u && u <= 13) || u == 32 || u == 0x85 || u == 0xA0 || u == 0x1680 || (0x2000 <= u
        && u <= 0x200A) || u == 0x2028 || u == 0x2029 || u == 0x202F || u == 0x205F || u == 0x3000
}

/// `s` without its trailing whitespace.
pub open spec fn trim_end(s: Seq<char>) -> Seq<char>
    decreases s.len(),
{
    if s.len() > 0 && is_ws(s.last()) {
        trim_end(s.drop_last())
    } else {
        s
    }
}

/// `s` without its leading whitespace.
pub open spec fn trim_start(s: Seq<char>) -> Seq<char>
    decreases s.len(),
{
    if s.len() > 0 && is_ws(s[0]) {
        trim_start(s.drop_first())
    } else {
        s
    }
}

/// `s` without whitespace at either end.
pub open spec fn trim(s: Seq<char>) -> Seq<char> {
    trim_start(trim_end(s))
}

/// `s` without the `c`s at its start.
pub open spec fn trim_char_start(s: Seq<char>, c: char) -> Seq<char>
    decreases s.len(),
{
    if s.len() > 0 && s[0] == c {
        trim_char_start(s.drop_first(), c)
    } else {
        s
    }
}

/// `s` without the `c`s at its end.
pub open spec fn trim_char_end(s: Seq<char>, c: char) -> Seq<char>
    decreases s.len(),
{
    if s.len() > 0 && s.last() == c {
        trim_char_end(s.drop_last(), c)
    } else {
        s
    }
}

/// `s` without any `c` at either end.
pub open spec fn trim_char(s: Seq<char>, c: char) -> Seq<char> {
    trim_char_end(trim_char_start(s, c), c)
}

/// The pieces of `s` between the occurrences of `sep`; one piece more than
/// there are separators.
pub open spec fn split_on(s: Seq<char>, sep: char) -> Seq<Seq<char>>
    decreases s.len(),
{
    if s.len() == 0 {
        seq![Seq::empty()]
    } else {
        let prev = split_on(s.drop_last(), sep);
        if s.last() == sep {
            prev.push(Seq::empty())
        } else {
            prev.update(prev.len() - 1, prev.last().push(s.last()))
        }
    }
}

/// The maximal runs of non-whitespace characters of `s`, in order.
pub open spec fn words(s: Seq<char>) -> Seq<Seq<char>>
    decreases s.len(),
{
    if s.len() == 0 {
        Seq::empty()
    } else if is_ws(s.last()) {
        words(s.drop_last())
    } else if s.len() >= 2 && !is_ws(s[s.len() - 2]) {
        let prev = words(s.drop_last());
        prev.update(prev.len() - 1, prev.last().push(s.last()))
    } else {
        words(s.drop_last()).push(seq![s.last()])
    }
}

/// `p` stands in `s` at position `i`.
pub open spec fn occurs_at(s: Seq<char>, p: Seq<char>, i: int) -> bool {
    0 <= i && i + p.len() <= s.len() && forall|k: int| 0 <= k < p.len() ==> s[i + k] == p[k]
}

pub open spec fn contains(s: Seq<char>, p: Seq<char>) -> bool {
    exists|i: int| occurs_at(s, p, i)
}

pub open spec fn ends_with(s: Seq<char>, p: Seq<char>) -> bool {
    p.len() <= s.len() && occurs_at(s, p, s.len() - p.len())
}

/// Where `p` first stands in `s`, if anywhere.
#[verifier::opaque]
pub open spec fn first_occurrence(s: Seq<char>, p: Seq<char>) -> Option<int> {
    if contains(s, p) {
        Some(choose|i: int| occurs_at(s, p, i) && forall|j: int| 0 <= j < i ==> !occurs_at(s, p, j))
    } else {
        None
    }
}

pub proof fn lemma_split_nonempty(s: Seq<char>, sep: char)
    ensures
        split_on(s, sep).len() > 0,
    decreases s.len(),
{
    if s.len() > 0 {
        lemma_split_nonempty(s.drop_last(), sep);
    }
}

/// Relies on `str::chars`: the characters of `s`, in order.
#[verifier::external_body]
pub(crate) fn chars_of(s: &str) -> (r: Vec<char>)
    ensures
        r@ == s@,
{
    s.chars().collect()
}

/// Relies on `String`'s `FromIterator<char>`: the string of exactly the
/// characters `v[lo..hi]`.
#[verifier::external_body]
pub(crate) fn string_of(v: &[char], lo: usize, hi: usize) -> (r: String)
    requires
        lo <= hi <= v@.len(),
    ensures
        r@ == v@.subrange(lo as int, hi as int),
{
    v[lo..hi].iter().collect()
}

/// Whether `p` stands in `s` at `i`.
pub fn matches_at(s: &[char], p: &[char], i: usize) -> (r: bool)
    ensures
        r == occurs_at(s@, p@, i as int),
{
    if i > s.len() || p.len() > s.len() - i {
        return false;
    }
    let mut k: usize = 0;
    while k < p.len()
        invariant
            i + p@.len() <= s@.len(),
            s@.len() <= usize::MAX,
            k <= p@.len(),
            forall|j: int| 0 <= j < k ==> s@[i + j] == p@[j],
        decreases p@.len() - k,
    {
        if s[i + k] != p[k] {
            return false;
        }
        k = k + 1;
    }
    true
}

/// The first position at which `p` stands in `s`.
pub fn find(s: &[char], p: &[char]) -> (r: Option<usize>)
    ensures
        r matches Some(i) ==> first_occurrence(s@, p@) == Some(i as int) && occurs_at(
            s@,
            p@,
            i as int,
        ),
        r is None ==> first_occurrence(s@, p@) is None,
{
    let n: usize = s.len();
    let mut i: usize = 0;
    loop
        invariant
            n == s@.len(),
            i <= n,
            forall|j: int| 0 <= j < i ==> !occurs_at(s@, p@, j),
        decreases n - i,
    {
        proof {
            reveal(first_occurrence);
        }
        if matches_at(s, p, i) {
            assert(contains(s@, p@));
            let ghost c = choose|c: int|
                occurs_at(s@, p@, c) && forall|j: int| 0 <= j < c ==> !occurs_at(s@, p@, j);
            assert(occurs_at(s@, p@, c) && forall|j: int| 0 <= j < c ==> !occurs_at(s@, p@, j))
                by {
                assert(occurs_at(s@, p@, i as int) && forall|j: int|
                    0 <= j < i ==> !occurs_at(s@, p@, j));
            }
            assert(c == i) by {
                if c < i {
                    assert(!occurs_at(s@, p@, c));
                } else if c > i {
                    assert(!occurs_at(s@, p@, i as int));
                }
            }
            return Some(i);
        }
        if i == n {
            assert forall|j: int| !occurs_at(s@, p@, j) by {
                if 0 <= j <= n {
                }
            }
            return None;
        }
        i = i + 1;
    }
}

pub fn has(s: &[char], p: &[char]) -> (r: bool)
    ensures
        r == contains(s@, p@),
{
    let f = find(s, p);
    proof {
        reveal(first_occurrence);
    }
    f.is_some()
}

pub fn has_suffix(s: &[char], p: &[char]) -> (r: bool)
    ensures
        r == ends_with(s@, p@),
{
    if p.len() > s.len() {
        false
    } else {
        matches_at(s, p, s.len() - p.len())
    }
}

/// The end of `s[lo..hi]` once its trailing whitespace is dropped.
pub fn trim_end_index(s: &[char], lo: usize, hi: usize) -> (r: usize)
    requires
        lo <= hi <= s@.len(),
    ensures
        lo <= r <= hi,
        s@.subrange(lo as int, r as int) == trim_end(s@.subrange(lo as int, hi as int)),
{
    let mut e: usize = hi;
    while e > lo && is_whitespace(s[e - 1])
        invariant
            lo <= e <= hi <= s@.len(),
            trim_end(s@.subrange(lo as int, e as int)) == trim_end(
                s@.subrange(lo as int, hi as int),
            ),
        decreases e,
    {
        assert(s@.subrange(lo as int, e as int).drop_last() =~= s@.subrange(lo as int, e - 1));
        e = e - 1;
    }
    e
}

/// The start of `s[lo..hi]` once its leading whitespace is dropped.
pub fn trim_start_index(s: &[char], lo: usize, hi: usize) -> (r: usize)
    requires
        lo <= hi <= s@.len(),
    ensures
        lo <= r <= hi,
        s@.subrange(r as int, hi as int) == trim_start(s@.subrange(lo as int, hi as int)),
{
    let mut b: usize = lo;
    while b < hi && is_whitespace(s[b])
        invariant
            lo <= b <= hi <= s@.len(),
            trim_start(s@.subrange(b as int, hi as int)) == trim_start(
                s@.subrange(lo as int, hi as int),
            ),
        decreases hi - b,
    {
        assert(s@.subrange(b as int, hi as int).drop_first() =~= s@.subrange(b + 1, hi as int));
        b = b + 1;
    }
    b
}

/// The bounds of `s[lo..hi]` once whitespace is dropped from both ends.
pub fn trim_bounds(s: &[char], lo: usize, hi: usize) -> (r: (usize, usize))
    requires
        lo <= hi <= s@.len(),
    ensures
        lo <= r.0 <= r.1 <= hi,
        s@.subrange(r.0 as int, r.1 as int) == trim(s@.subrange(lo as int, hi as int)),
{
    let e = trim_end_index(s, lo, hi);
    let b = trim_start_index(s, lo, e);
    (b, e)
}

/// Whether `s[lo..hi]` is exactly `p`.
pub fn range_is(s: &[char], lo: usize, hi: usize, p: &[char]) -> (r: bool)
    requires
        lo <= hi <= s@.len(),
    ensures
        r == (s@.subrange(lo as int, hi as int) == p@),
{
    if hi - lo != p.len() {
        return false;
    }
    let r = matches_at(s, p, lo);
    if r {
        assert(s@.subrange(lo as int, hi as int) =~= p@);
    } else {
        proof {
            if s@.subrange(lo as int, hi as int) == p@ {
                assert(occurs_at(s@, p@, lo as int));
            }
        }
    }
    r
}

/// The character sequences held by `v`.
pub open spec fn views(v: Seq<Vec<char>>) -> Seq<Seq<char>> {
    Seq::new(v.len(), |i: int| v[i]@)
}

/// The pieces of `s` between occurrences of `sep`.
pub fn split(s: &[char], sep: char) -> (r: Vec<Vec<char>>)
    ensures
        views(r@) == split_on(s@, sep),
{
    let mut pieces: Vec<Vec<char>> = Vec::new();
    let mut cur: Vec<char> = Vec::new();
    let mut i: usize = 0;
    assert(s@.subrange(0, 0) =~= Seq::<char>::empty());
    assert(views(pieces@).push(cur@) =~= split_on(Seq::<char>::empty(), sep));
    while i < s.len()
        invariant
            i <= s@.len(),
            views(pieces@).push(cur@) == split_on(s@.subrange(0, i as int), sep),
        decreases s@.len() - i,
    {
        let c = s[i];
        let ghost prefix = s@.subrange(0, i as int);
        let ghost next = s@.subrange(0, i + 1);
        assert(next.drop_last() =~= prefix);
        if c == sep {
            let mut done = Vec::new();
            std::mem::swap(&mut done, &mut cur);
            pieces.push(done);
            assert(views(pieces@).push(cur@) =~= split_on(prefix, sep).push(Seq::empty()));
        } else {
            let ghost before = views(pieces@);
            cur.push(c);
            assert(views(pieces@).push(cur@) =~= split_on(prefix, sep).update(
                split_on(prefix, sep).len() - 1,
                split_on(prefix, sep).last().push(c),
            ));
        }
        i = i + 1;
    }
    assert(s@.subrange(0, i as int) =~= s@);
    pieces.push(cur);
    assert(views(pieces@) =~= split_on(s@, sep));
    pieces
}

/// The whitespace-separated words of `s`.
pub fn split_words(s: &[char]) -> (r: Vec<Vec<char>>)
    ensures
        views(r@) == words(s@),
{
    let mut pieces: Vec<Vec<char>> = Vec::new();
    let mut cur: Vec<char> = Vec::new();
    let mut i: usize = 0;
    assert(s@.subrange(0, 0) =~= Seq::<char>::empty());
    while i < s.len()
        invariant
            i <= s@.len(),
            cur@.len() > 0 <==> (i > 0 && !is_ws(s@[i - 1])),
            cur@.len() > 0 ==> views(pieces@).push(cur@) == words(s@.subrange(0, i as int)),
            cur@.len() == 0 ==> views(pieces@) == words(s@.subrange(0, i as int)),
        decreases s@.len() - i,
    {
        let c = s[i];
        let ghost prefix = s@.subrange(0, i as int);
        let ghost next = s@.subrange(0, i + 1);
        assert(next.drop_last() =~= prefix);
        assert(next.last() == c);
        if is_whitespace(c) {
            if cur.len() > 0 {
                let mut done = Vec::new();
            std::mem::swap(&mut done, &mut cur);
                pieces.push(done);
                assert(views(pieces@) =~= words(prefix));
            }
        } else {
            if cur.len() > 0 {
                assert(next[next.len() - 2] == s@[i - 1]);
                cur.push(c);
                assert(views(pieces@).push(cur@) =~= words(prefix).update(
                    words(prefix).len() - 1,
                    words(prefix).last().push(c),
                ));
            } else {
                proof {
                    if i > 0 {
                        assert(next[next.len() - 2] == s@[i - 1]);
                    }
                }
                cur.push(c);
                assert(cur@ =~= seq![c]);
                assert(views(pieces@).push(cur@) =~= words(prefix).push(seq![c]));
                assert(words(next) == words(prefix).push(seq![c]));
            }
        }
        i = i + 1;
    }
    assert(s@.subrange(0, i as int) =~= s@);
    if cur.len() > 0 {
        pieces.push(cur);
    }
    assert(views(pieces@) =~= words(s@));
    pieces
}

/// The bounds of `s` once every `c` at either end is dropped.
pub fn trim_char_bounds(s: &[char], c: char) -> (r: (usize, usize))
    ensures
        r.0 <= r.1 <= s@.len(),
        s@.subrange(r.0 as int, r.1 as int) == trim_char(s@, c),
{
    let n = s.len();
    let mut b: usize = 0;
    assert(s@.subrange(0, n as int) =~= s@);
    while b < n && s[b] == c
        invariant
            b <= n == s@.len(),
            trim_char_start(s@.subrange(b as int, n as int), c) == trim_char_start(s@, c),
        decreases n - b,
    {
        assert(s@.subrange(b as int, n as int).drop_first() =~= s@.subrange(b + 1, n as int));
        b = b + 1;
    }
    let mut e: usize = n;
    while e > b && s[e - 1] == c
        invariant
            b <= e <= n == s@.len(),
            trim_char_end(s@.subrange(b as int, e as int), c) == trim_char(s@, c),
        decreases e,
    {
        assert(s@.subrange(b as int, e as int).drop_last() =~= s@.subrange(b as int, e - 1));
        e = e - 1;
    }
    (b, e)
}

} // verus!
